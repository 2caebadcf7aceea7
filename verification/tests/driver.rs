use dotman::execute::driver::{Next, RunDriver};
use dotman::execute::events::ExecuteEvent;
use dotman::execute::runner::{settle_command, settle_create, ActionRecord};
use dotman::model::{
    Action, ActionStatus, HostInfo, Mode, OutputLine, OutputStream, Plan, PlanItem, RunStatus, MAX_HISTORY_OUTPUT_LINES,
};

fn sh() -> Action {
    Action::Shell { command: "true".into(), description: None, optional: false, if_condition: None }
}

fn item(id: &str, actions: Vec<Action>, selected: bool) -> PlanItem {
    PlanItem { id: id.into(), name: id.into(), layer: "misc".into(), actions, selected }
}

fn plan(items: Vec<PlanItem>) -> Plan {
    Plan {
        id: "plan-id".into(),
        mode: Mode::Deploy,
        created_at: "2026-01-01T00:00:00Z".into(),
        config_path: "/tmp/dotman.yaml".into(),
        config_hash: "hash".into(),
        host: HostInfo { hostname: "h".into(), os: "test".into(), arch: "test".into(), user: "u".into(), home: "/tmp".into() },
        items,
        auto_install_pkg_manager: false,
    }
}

fn label(e: &ExecuteEvent) -> &'static str {
    match e {
        ExecuteEvent::ItemStarted { .. } => "item-started",
        ExecuteEvent::ActionStarted { .. } => "action-started",
        ExecuteEvent::ActionMessage { .. } => "action-message",
        ExecuteEvent::ActionError { .. } => "action-error",
        ExecuteEvent::ActionFinished { .. } => "action-finished",
        ExecuteEvent::ItemFinished { .. } => "item-finished",
        ExecuteEvent::Aborted => "aborted",
        _ => "other",
    }
}

/// Drives a run, answering each action with `outcome` and asking to abort
/// whenever `abort` says so (given the number of polls so far).
fn drive(p: &Plan, abort: impl Fn(usize) -> bool, outcome: impl Fn(&Action) -> ActionRecord) -> (dotman::model::Run, Vec<&'static str>) {
    let mut d = RunDriver::new();
    let mut seen = Vec::new();
    let mut polls = 0;
    loop {
        let (events, next) = d.poll(p, abort(polls));
        polls += 1;
        seen.extend(events.iter().map(label));
        match next {
            Next::Continue | Next::BeginItem => {}
            Next::Perform => {
                let a = &p.items[d.index].actions[d.action];
                let ev = d.record(p, outcome(a));
                seen.extend(ev.iter().map(label));
            }
            Next::EndItem => {
                let ev = d.end_item(p, "s".into(), "f".into(), 1);
                seen.extend(ev.iter().map(label));
            }
            Next::Done => break,
        }
    }
    (d.finish(p, "run".into(), "s".into(), "f".into()), seen)
}

fn ok(_: &Action) -> ActionRecord {
    settle_command(Ok((Some(0), vec![])), false)
}

#[test]
fn execute_with_events_can_abort_before_running() {
    let p = plan(vec![item("a", vec![sh()], true), item("b", vec![sh()], false)]);
    let (r, seen) = drive(&p, |_| true, ok);
    assert_eq!(r.status, RunStatus::Aborted);
    assert_eq!(seen, vec!["aborted"]);
    assert_eq!(r.items.len(), 2);
    assert_eq!(r.items[0].status, ActionStatus::NotRun);
    assert_eq!(r.items[0].error.as_deref(), Some("not run (aborted)"));
    assert_eq!(r.items[0].actions[0].status, ActionStatus::NotRun);
    assert_eq!(r.items[1].status, ActionStatus::WillSkip);
    assert_eq!(r.items[1].error.as_deref(), Some("skipped (not selected)"));
    assert_eq!(r.plan_id.as_deref(), Some("plan-id"));
}

#[test]
fn execute_emits_lifecycle_events_in_order() {
    let p = plan(vec![item("a", vec![Action::Create { target: "/tmp/d".into() }], true)]);
    let (r, seen) = drive(&p, |_| false, |a| match a {
        Action::Create { target } => settle_create(target, false, &Ok(())),
        _ => ok(a),
    });
    assert_eq!(seen, vec!["item-started", "action-started", "action-message", "action-finished", "item-finished"]);
    assert_eq!(r.status, RunStatus::Success);
    assert_eq!(r.items[0].status, ActionStatus::WillCreate);
}

#[test]
fn a_failed_item_does_not_stop_later_items_and_every_item_is_recorded_in_order() {
    let p = plan(vec![
        item("first", vec![sh(), sh()], true),
        item("skipped", vec![sh()], false),
        item("last", vec![sh()], true),
    ]);
    let (r, seen) = drive(&p, |_| false, |_| settle_command(Ok((Some(3), vec![])), false));
    assert_eq!(r.status, RunStatus::Failed);
    let ids: Vec<&str> = r.items.iter().map(|i| i.id.as_str()).collect();
    assert_eq!(ids, vec!["first", "skipped", "last"]);
    assert_eq!(r.items[0].actions[1].status, ActionStatus::NotRun);
    assert_eq!(r.items[2].status, ActionStatus::WillFail);
    assert_eq!(seen.iter().filter(|e| **e == "item-started").count(), 2);
}

#[test]
fn an_abort_between_actions_keeps_the_done_ones_and_stops_the_run() {
    let p = plan(vec![item("a", vec![sh(), sh()], true), item("b", vec![sh()], true)]);
    // polls: 0 begin item, 1 perform first action, 2 abort before the second
    let (r, seen) = drive(&p, |n| n >= 2, ok);
    assert_eq!(r.status, RunStatus::Aborted);
    assert_eq!(r.items[0].actions[0].status, ActionStatus::Executed);
    assert_eq!(r.items[0].actions[1].status, ActionStatus::NotRun);
    assert_eq!(r.items[1].status, ActionStatus::NotRun);
    assert_eq!(seen.iter().filter(|e| **e == "aborted").count(), 1);
}

#[test]
fn optional_failures_end_in_success() {
    let p = plan(vec![item("a", vec![sh(), sh()], true)]);
    let (r, _) = drive(&p, |_| false, |_| settle_command(Ok((Some(1), vec![])), true));
    assert_eq!(r.status, RunStatus::Success);
    assert_eq!(r.items[0].actions.len(), 2);
}

#[test]
fn every_output_a_run_keeps_is_capped() {
    let first = Action::Shell { command: "first".into(), description: None, optional: false, if_condition: None };
    let p = plan(vec![item("a", vec![first, sh()], true)]);
    let outcome = |a: &Action| -> ActionRecord {
        let lines: Vec<OutputLine> = match a {
            Action::Shell { command, .. } if command == "first" => (1..=MAX_HISTORY_OUTPUT_LINES + 20)
                .map(|i| OutputLine { stream: OutputStream::Stdout, line: format!("first-{i}") })
                .collect(),
            _ => vec![OutputLine { stream: OutputStream::Stdout, line: "second-action".into() }],
        };
        settle_command(Ok((Some(0), lines)), false)
    };
    let (r, _) = drive(&p, |_| false, outcome);
    let it = &r.items[0];
    assert_eq!(it.output.len(), MAX_HISTORY_OUTPUT_LINES);
    assert_eq!(it.output.last().unwrap().line, "second-action");
    assert_eq!(it.actions[0].output.len(), MAX_HISTORY_OUTPUT_LINES);
    assert_eq!(it.actions[0].output[0].line, "first-21");
    assert!(it.actions[0].output.iter().all(|l| l.line != "second-action"));
    assert_eq!(it.actions[1].output.len(), 1);
    assert_eq!(r.status, RunStatus::Success);
}

#[test]
fn an_action_cut_short_reports_one_abort_and_stops_the_run() {
    let p = plan(vec![item("a", vec![sh(), sh()], true), item("b", vec![sh()], true)]);
    let cut = |_: &Action| -> ActionRecord {
        ActionRecord {
            status: ActionStatus::WillFail,
            error: Some("killed".into()),
            output: vec![],
            notices: vec![],
            attempts: None,
            aborted: true,
        }
    };
    let (r, seen) = drive(&p, |_| false, cut);
    assert_eq!(seen.iter().filter(|e| **e == "aborted").count(), 1);
    assert_eq!(r.status, RunStatus::Aborted);
    assert_eq!(r.items[0].actions[1].status, ActionStatus::NotRun);
    assert_eq!(r.items[0].actions[1].error.as_deref(), Some("not run after previous failure"));
    assert_eq!(r.items[1].status, ActionStatus::NotRun);
}
