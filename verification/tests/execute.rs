use dotman::execute::runner::{after_sudo_prompt, sudo_step, SudoStep};
use dotman::execute::installer::{
    font_command, install_path, shell_quote, InstallPath, DEFAULT_INSTALL_RETRIES,
};
use dotman::ops::install::{InstallPresence, InstallSpec, ToolEntry};
use dotman::execute::result::{cap_output_len, push_output_line};
use dotman::execute::runner::{settle_command, ItemRun, RunProgress};
use dotman::model::{
    Action, ActionStatus, HostInfo, Mode, OutputLine, OutputStream, Plan, PlanItem, RunStatus,
    MAX_HISTORY_OUTPUT_LINES,
};
use dotman::stamp::new_run_id;

fn test_host() -> HostInfo {
    HostInfo {
        hostname: "host".into(),
        os: "test".into(),
        arch: "test".into(),
        user: "user".into(),
        home: "/tmp".into(),
    }
}

fn test_plan(actions: Vec<Action>) -> Plan {
    Plan {
        id: "plan-id".into(),
        mode: Mode::Deploy,
        created_at: "2026-01-01T00:00:00Z".into(),
        config_path: "/tmp/dotman.yaml".into(),
        config_hash: "hash".into(),
        host: test_host(),
        items: vec![PlanItem {
            id: "item".into(),
            name: "item".into(),
            layer: "misc".into(),
            actions,
            selected: true,
        }],
        auto_install_pkg_manager: false,
    }
}

fn shell(command: &str, description: &str) -> Action {
    Action::Shell {
        command: command.into(),
        description: Some(description.into()),
        optional: false,
        if_condition: None,
    }
}

fn stdout(line: String) -> OutputLine {
    OutputLine { stream: OutputStream::Stdout, line }
}

#[test]
fn same_plan_generates_unique_run_ids() {
    let plan = test_plan(vec![shell("true", "ok")]);

    let first = RunProgress::new().finish(&plan, new_run_id(), "a".into(), "b".into());
    let second = RunProgress::new().finish(&plan, new_run_id(), "a".into(), "b".into());

    assert_ne!(first.id, second.id);
    assert_eq!(first.plan_id.as_deref(), Some("plan-id"));
    assert_eq!(second.plan_id.as_deref(), Some("plan-id"));
    assert_eq!(first.status, RunStatus::Success);
}

#[test]
fn action_outputs_remain_assigned_after_item_output_truncation() {
    let plan = test_plan(vec![shell("first", "first"), shell("echo second-action", "second")]);
    let actions = &plan.items[0].actions;
    let first_lines: Vec<OutputLine> = (1..=MAX_HISTORY_OUTPUT_LINES + 20)
        .map(|i| stdout(format!("first-{i}")))
        .collect();
    let second_lines = vec![stdout("second-action".to_string())];

    let mut item = ItemRun::new();
    let stop = item.record(actions, 0, settle_command(Ok((Some(0), first_lines)), false));
    assert!(!stop);
    let stop = item.record(actions, 1, settle_command(Ok((Some(0), second_lines)), false));
    assert!(!stop);
    let run_item = item.finish(&plan.items[0], "s".into(), "f".into(), 5);

    let actions = &run_item.actions;
    assert_eq!(actions.len(), 2);
    assert!(actions[0].output.iter().all(|line| !line.line.contains("second-action")));
    assert!(actions[1].output.iter().any(|line| line.line.contains("second-action")));
    assert_eq!(run_item.status, ActionStatus::Executed);
}

#[test]
fn history_output_respects_500_line_cap() {
    let mut output: Vec<OutputLine> = Vec::new();
    for i in 0..600 {
        push_output_line(&mut output, OutputStream::Stdout, &format!("line {i}"));
    }
    assert_eq!(output.len(), 500);
    assert_eq!(output.first().unwrap().line, "line 100");
    assert_eq!(output.last().unwrap().line, "line 599");
}

#[test]
fn cap_output_after_extend() {
    let mut all_output: Vec<OutputLine> = Vec::new();
    push_output_line(&mut all_output, OutputStream::Action, "attempt 1/3");
    for i in 0..500 {
        push_output_line(&mut all_output, OutputStream::Stdout, &format!("line {i}"));
    }
    assert_eq!(all_output.len(), 500);
    let mut retry_output = Vec::new();
    for i in 0..100 {
        retry_output.push(OutputLine { stream: OutputStream::Stdout, line: format!("retry {i}") });
    }
    all_output.extend(retry_output);
    cap_output_len(&mut all_output);
    push_output_line(&mut all_output, OutputStream::Action, "final");
    assert_eq!(all_output.len(), 500);
    assert_eq!(all_output.last().unwrap().line, "final");
}

#[test]
fn shell_quote_handles_single_quotes() {
    assert_eq!(shell_quote("hello"), "'hello'");
    assert_eq!(shell_quote("it's working"), "'it'\\''s working'");
    assert_eq!(shell_quote(""), "''");
}

#[test]
fn font_command_starts_with_mkdir_not_quoted_command() {
    let source_url = "https://example.com/font.zip";
    let home = "/home/user";
    let name = "test-font";
    let fonts_dir = format!("{home}/.local/share/fonts");
    let zip = format!("{fonts_dir}/{name}.zip");

    let cmd = format!(
        "mkdir -p {} && curl -fsSL {} -o {} && unzip -o -q {} -d {} && rm -f {}",
        shell_quote(&fonts_dir),
        shell_quote(source_url),
        shell_quote(&zip),
        shell_quote(&zip),
        shell_quote(&fonts_dir),
        shell_quote(&zip),
    );

    assert!(cmd.starts_with("mkdir"), "font command should start with 'mkdir', got: {cmd}");
    assert!(cmd.contains("'/home/user/.local/share/fonts'"));
    assert!(!cmd.contains("'mkdir"));
}

#[test]
fn library_font_command_quotes_each_argument() {
    let cmd = font_command("/home/user/.local/share/fonts", "https://example.com/font.zip", "");
    assert_eq!(
        cmd,
        "tmpdir=$(mktemp -d) && trap 'rm -rf \"$tmpdir\"' EXIT HUP INT TERM && mkdir -p '/home/user/.local/share/fonts' && curl -fsSL 'https://example.com/font.zip' -o \"$tmpdir/font.zip\" && unzip -o -q \"$tmpdir/font.zip\" -d \"$tmpdir/font\" && find \"$tmpdir/font\" -type f \\( -name '*.ttf' -o -name '*.otf' \\) -exec cp {} '/home/user/.local/share/fonts'/ \\; && if command -v fc-cache >/dev/null 2>&1; then fc-cache -f '/home/user/.local/share/fonts'; fi"
    );
    assert!(!cmd.contains("'mkdir"));
}

#[test]
fn failing_command_stops_the_item_and_marks_the_rest_not_run() {
    let plan = test_plan(vec![shell("false", "fails"), shell("true", "never")]);
    let actions = &plan.items[0].actions;
    let mut item = ItemRun::new();
    let stop = item.record(actions, 0, settle_command(Ok((Some(2), vec![])), false));
    assert!(stop);
    let run_item = item.finish(&plan.items[0], "s".into(), "f".into(), 1);
    assert_eq!(run_item.status, ActionStatus::WillFail);
    assert_eq!(run_item.error.as_deref(), Some("exit code 2"));
    assert_eq!(run_item.actions.len(), 2);
    assert_eq!(run_item.actions[1].status, ActionStatus::NotRun);
}

#[test]
fn optional_failure_is_no_change() {
    let rec = settle_command(Ok((Some(1), vec![])), true);
    assert_eq!(rec.status, ActionStatus::NoChange);
    assert!(rec.error.is_none());
    assert_eq!(rec.output.last().unwrap().line, "optional command failed (exit 1)");
}

#[test]
fn abort_before_an_item_records_the_rest_as_not_run() {
    let mut plan = test_plan(vec![shell("a", "a")]);
    plan.items.push(PlanItem {
        id: "later".into(),
        name: "later".into(),
        layer: "misc".into(),
        actions: vec![shell("b", "b")],
        selected: false,
    });
    let mut progress = RunProgress::new();
    progress.abort_before(0);
    let run = progress.finish(&plan, new_run_id(), "s".into(), "f".into());
    assert_eq!(run.status, RunStatus::Aborted);
    assert_eq!(run.items.len(), 2);
    assert_eq!(run.items[0].status, ActionStatus::NotRun);
    assert_eq!(run.items[0].error.as_deref(), Some("not run (aborted)"));
    assert_eq!(run.items[0].actions[0].status, ActionStatus::NotRun);
    assert_eq!(run.items[1].status, ActionStatus::WillSkip);
    assert_eq!(run.items[1].error.as_deref(), Some("skipped (not selected)"));
}

#[test]
fn abort_inside_an_item_marks_the_remaining_actions() {
    let plan = test_plan(vec![shell("a", "first"), shell("b", "second"), shell("c", "third")]);
    let actions = &plan.items[0].actions;
    let mut item = ItemRun::new();
    assert!(!item.record(actions, 0, settle_command(Ok((Some(0), vec![])), false)));
    item.abort_at(actions, 1);
    assert!(item.aborted);
    assert_eq!(item.last_status, ActionStatus::Aborted);
    assert_eq!(item.error.as_deref(), Some("aborted"));
    assert_eq!(item.actions.len(), 3);
    assert_eq!(item.actions[1].status, ActionStatus::NotRun);
    assert_eq!(item.actions[2].error.as_deref(), Some("not run (aborted)"));
}

fn create(target: &str) -> Action {
    Action::Create { target: target.into() }
}

#[test]
fn failing_action_marks_the_rest_of_its_item_not_run() {
    let plan = test_plan(vec![shell("false", "fail"), create("/tmp/x")]);
    let actions = &plan.items[0].actions;
    let mut item = ItemRun::new();
    assert!(item.record(actions, 0, settle_command(Ok((Some(1), vec![])), false)));
    assert_eq!(item.error.as_deref(), Some("exit code 1"));
    assert_eq!(item.actions.len(), 2);
    assert_eq!(item.actions[0].status, ActionStatus::WillFail);
    assert_eq!(item.actions[1].status, ActionStatus::NotRun);
    assert_eq!(item.actions[1].error.as_deref(), Some("not run after previous failure"));

    let mut progress = RunProgress::new();
    assert!(!progress.finish_item(0, &plan.items[0], item, "s".into(), "f".into(), 1));
    let run = progress.finish(&plan, new_run_id(), "s".into(), "f".into());
    assert_eq!(run.status, RunStatus::Failed);
    assert_eq!(run.items[0].status, ActionStatus::WillFail);
}

#[test]
fn failed_item_leaves_later_items_to_run() {
    let mut plan = test_plan(vec![shell("false", "fail")]);
    plan.items.push(PlanItem {
        id: "later".into(),
        name: "later".into(),
        layer: "misc".into(),
        actions: vec![create("/tmp/later")],
        selected: true,
    });
    let mut progress = RunProgress::new();
    let mut first = ItemRun::new();
    first.record(&plan.items[0].actions, 0, settle_command(Ok((Some(1), vec![])), false));
    assert!(!progress.finish_item(0, &plan.items[0], first, "s".into(), "f".into(), 1));
    let mut second = ItemRun::new();
    let created = dotman::execute::runner::ActionRecord {
        status: ActionStatus::WillCreate,
        error: None,
        output: vec![],
        notices: vec![],
        attempts: None,
        aborted: false,
    };
    assert!(!second.record(&plan.items[1].actions, 0, created));
    assert!(!progress.finish_item(1, &plan.items[1], second, "s".into(), "f".into(), 1));
    let run = progress.finish(&plan, new_run_id(), "s".into(), "f".into());
    assert_eq!(run.status, RunStatus::Failed);
    assert_eq!(run.items.len(), 2);
    assert_eq!(run.items[0].status, ActionStatus::WillFail);
    assert_eq!(run.items[1].status, ActionStatus::WillCreate);
}

#[test]
fn failing_optional_command_is_no_change_and_the_item_goes_on() {
    let plan = test_plan(vec![
        Action::Shell { command: "false".into(), description: Some("optional".into()), optional: true, if_condition: None },
        create("/tmp/after"),
    ]);
    let actions = &plan.items[0].actions;
    let mut item = ItemRun::new();
    assert!(!item.record(actions, 0, settle_command(Ok((Some(1), vec![])), true)));
    assert_eq!(item.actions[0].status, ActionStatus::NoChange);
    assert!(item.error.is_none());
    let mut progress = RunProgress::new();
    progress.finish_item(0, &plan.items[0], item, "s".into(), "f".into(), 1);
    assert_eq!(progress.finish(&plan, new_run_id(), "s".into(), "f".into()).status, RunStatus::Success);
}

fn install_spec(name: &str, command: Option<&str>) -> InstallSpec {
    InstallSpec {
        entry: ToolEntry {
            name: name.into(),
            binary: name.into(),
            layer: "software".into(),
            kind: String::new(),
            source_url: String::new(),
            font_family: String::new(),
            platforms: vec![],
        },
        pkg_mgr: "brew".into(),
        command: command.map(String::from),
        error: None,
    }
}

#[test]
fn install_skips_when_binary_is_present() {
    let spec = install_spec("sh", Some("brew install sh"));
    match install_path(&spec, InstallPresence::Present, "/home/u", DEFAULT_INSTALL_RETRIES) {
        InstallPath::Done(report, notice) => {
            assert_eq!(report.status, ActionStatus::NoChange);
            assert!(report.error.is_none());
            assert_eq!(report.attempts, 0);
            assert!(report.output.iter().any(|line| line.line.contains("already installed: sh")));
            assert!(!notice.is_error);
            assert!(notice.message.contains("already installed: sh"));
        }
        other => panic!("unexpected {other:?}"),
    }
}

#[test]
fn install_executes_command_captured_in_spec() {
    let spec = install_spec("dotman-test-snapshot-command", Some("printf 'snapshot-command\\n'"));
    let mut retry = match install_path(&spec, InstallPresence::Missing, "/home/u", 0) {
        InstallPath::Retry(t) => t,
        other => panic!("unexpected {other:?}"),
    };
    assert_eq!(retry.command, "printf 'snapshot-command\\n'");
    assert!(retry.more());
    assert_eq!(retry.begin_attempt(), "install dotman-test-snapshot-command: attempt 1/1");
    let report = retry.after_command(Some(0), vec![stdout("snapshot-command".into())]).unwrap();
    assert_eq!(report.status, ActionStatus::WillInstall);
    assert!(report.error.is_none());
    assert_eq!(report.attempts, 1);
    assert!(report.output.iter().any(|line| line.line == "snapshot-command"));
}

#[test]
fn failed_install_attempts_back_off_then_fail_with_the_last_error() {
    let spec = install_spec("fish", Some("brew install fish"));
    let mut retry = match install_path(&spec, InstallPresence::Missing, "/home/u", DEFAULT_INSTALL_RETRIES) {
        InstallPath::Retry(t) => t,
        other => panic!("unexpected {other:?}"),
    };
    assert_eq!(retry.max, 3);
    let mut delays = Vec::new();
    loop {
        retry.begin_attempt();
        retry = match retry.after_command(Some(1), vec![]) {
            Ok(report) => panic!("unexpected {report:?}"),
            Err(t) => t,
        };
        assert_eq!(retry.last_err.as_deref(), Some("install failed (exit 1)"));
        match retry.retry_wait() {
            Some((delay, line)) => {
                assert_eq!(line, format!("retrying fish in {delay}s"));
                delays.push(delay);
            }
            None => break,
        }
    }
    assert_eq!(delays, vec![5, 10]);
    let (report, notice) = retry.exhausted();
    assert_eq!(report.status, ActionStatus::WillFail);
    assert_eq!(report.attempts, 3);
    assert_eq!(report.error.as_deref(), Some("install failed (exit 1)"));
    assert_eq!(notice.unwrap().message, "install failed (exit 1)");
    assert_eq!(report.output.last().unwrap().line, "install failed (exit 1)");
}

#[test]
fn install_without_a_command_fails_with_the_reason() {
    let spec = install_spec("fish", None);
    match install_path(&spec, InstallPresence::Missing, "/home/u", DEFAULT_INSTALL_RETRIES) {
        InstallPath::Done(report, notice) => {
            assert_eq!(report.status, ActionStatus::WillFail);
            assert_eq!(report.error.as_deref(), Some("no install command for brew"));
            assert!(notice.is_error);
        }
        other => panic!("unexpected {other:?}"),
    }
}

#[test]
fn execute_empty_plan_runs_no_actions() {
    let mut plan = test_plan(vec![]);
    plan.items.clear();
    let run = RunProgress::new().finish(&plan, new_run_id(), "s".into(), "f".into());
    assert_eq!(run.status, RunStatus::Success);
    assert_eq!(run.items.len(), 0);
}

#[test]
fn sudo_commands_prompt_with_the_item_name_when_the_session_lapsed() {
    assert!(matches!(sudo_step("echo hi", "item", false), SudoStep::NotNeeded));
    assert!(matches!(sudo_step("sudo apt update", "item", true), SudoStep::Ready));
    match sudo_step("sudo apt update", "fish", false) {
        SudoStep::Prompt(n) => assert_eq!(n, "fish"),
        other => panic!("unexpected {other:?}"),
    }
    assert!(after_sudo_prompt(true).is_none());
    let rec = after_sudo_prompt(false).unwrap();
    assert_eq!(rec.status, ActionStatus::WillFail);
    assert_eq!(rec.error.as_deref(), Some("sudo session expired"));
}
