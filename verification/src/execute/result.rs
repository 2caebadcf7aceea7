//! Run-record construction: per-action results, not-run and skipped
//! records, output capping, and the statuses that action outcomes map to.

use vstd::prelude::*;
use crate::text::opt_string_view;
use crate::model::{Action, ActionStatus, MAX_HISTORY_OUTPUT_LINES, OutputLine, OutputStream, Plan, PlanItem, RunAction, RunItem, RunStatus, describe_spec};
use crate::ops::clean::CleanAction;
use crate::ops::link::LinkAction;
use crate::text::{decimal_chars, string_of};

verus! {

/// The kind name of an action.
pub open spec fn action_kind_spec(a: Action) -> Seq<char> {
    match a {
        Action::Install { .. } => "install"@,
        Action::Link { .. } => "link"@,
        Action::Create { .. } => "create"@,
        Action::Shell { .. } => "shell"@,
        Action::Clean { .. } => "clean"@,
    }
}

/// The kind name of an action.
pub fn action_kind(action: &Action) -> (r: &'static str)
    ensures
        r@ == action_kind_spec(*action),
{
    match action {
        Action::Install { .. } => "install",
        Action::Link { .. } => "link",
        Action::Create { .. } => "create",
        Action::Shell { .. } => "shell",
        Action::Clean { .. } => "clean",
    }
}

/// `r` records `action` as not performed, with `status` and `reason`.
pub open spec fn is_unperformed_record(r: RunAction, action: Action, status: ActionStatus, reason: Seq<
    char,
>) -> bool {
    &&& r.kind@ == action_kind_spec(action)
    &&& r.name@ == describe_spec(action)
    &&& r.status == status
    &&& r.error matches Some(e) && e@ == reason
    &&& r.output@.len() == 0
}

/// The record of an action that was skipped or not run.
pub fn skipped_or_not_run_action(action: &Action, status: ActionStatus, reason: &str) -> (r:
    RunAction)
    ensures
        is_unperformed_record(r, *action, status, reason@),
{
    RunAction {
        kind: String::from_str(action_kind(action)),
        name: action.describe(),
        status,
        error: Some(String::from_str(reason)),
        output: Vec::new(),
    }
}

/// The record of an action that was not run.
pub fn not_run_action(action: &Action, reason: &str) -> (r: RunAction)
    ensures
        is_unperformed_record(r, *action, ActionStatus::NotRun, reason@),
{
    skipped_or_not_run_action(action, ActionStatus::NotRun, reason)
}

/// Appends a not-run record for each action from `start_index` on.
pub fn append_not_run_actions(
    run_actions: &mut Vec<RunAction>,
    actions: &Vec<Action>,
    start_index: usize,
    reason: &str,
)
    ensures
        start_index <= actions.len() ==> final(run_actions)@.len() == old(run_actions)@.len()
            + actions.len() - start_index,
        start_index > actions.len() ==> final(run_actions)@ == old(run_actions)@,
        final(run_actions)@.take(old(run_actions)@.len() as int) == old(run_actions)@,
        forall|k: int|
            start_index <= k < actions.len() ==> is_unperformed_record(
                #[trigger] final(run_actions)@[old(run_actions)@.len() + k - start_index],
                actions@[k],
                ActionStatus::NotRun,
                reason@,
            ),
{
    let ghost base = run_actions@;
    if start_index > actions.len() {
        return;
    }
    let mut k = start_index;
    while k < actions.len()
        invariant
            start_index <= k <= actions.len(),
            run_actions@.len() == base.len() + k - start_index,
            run_actions@.take(base.len() as int) == base,
            forall|m: int|
                start_index <= m < k ==> is_unperformed_record(
                    #[trigger] run_actions@[base.len() + m - start_index],
                    actions@[m],
                    ActionStatus::NotRun,
                    reason@,
                ),
        decreases actions.len() - k,
    {
        let rec = not_run_action(&actions[k], reason);
        run_actions.push(rec);
        assert(run_actions@.take(base.len() as int) =~= base);
        k += 1;
    }
}

/// `r` records plan item `p` as not performed: skipped when unselected,
/// not run when selected, each action recorded alike.
pub open spec fn is_unperformed_item(r: RunItem, p: PlanItem) -> bool {
    let (status, reason) = if p.selected {
        (ActionStatus::NotRun, "not run (aborted)"@)
    } else {
        (ActionStatus::WillSkip, "skipped (not selected)"@)
    };
    &&& r.id == p.id
    &&& r.name == p.name
    &&& r.status == status
    &&& r.started_at is None
    &&& r.finished_at is None
    &&& r.duration_ms is None
    &&& r.attempts == 0
    &&& r.error matches Some(e) && e@ == reason
    &&& r.output@.len() == 0
    &&& r.actions@.len() == p.actions@.len()
    &&& forall|k: int|
        0 <= k < p.actions@.len() ==> is_unperformed_record(
            #[trigger] r.actions@[k],
            p.actions@[k],
            status,
            reason,
        )
}

/// The record of a plan item that is not performed.
pub fn unperformed_item(plan_item: &PlanItem) -> (r: RunItem)
    ensures
        is_unperformed_item(r, *plan_item),
{
    let (status, reason) = if plan_item.selected {
        (ActionStatus::NotRun, "not run (aborted)")
    } else {
        (ActionStatus::WillSkip, "skipped (not selected)")
    };
    let mut actions: Vec<RunAction> = Vec::new();
    let mut k: usize = 0;
    while k < plan_item.actions.len()
        invariant
            k <= plan_item.actions.len(),
            actions@.len() == k,
            forall|m: int|
                0 <= m < k ==> is_unperformed_record(
                    #[trigger] actions@[m],
                    plan_item.actions@[m],
                    status,
                    reason@,
                ),
        decreases plan_item.actions.len() - k,
    {
        actions.push(skipped_or_not_run_action(&plan_item.actions[k], status, reason));
        k += 1;
    }
    RunItem {
        id: plan_item.id.clone(),
        name: plan_item.name.clone(),
        status,
        started_at: None,
        finished_at: None,
        duration_ms: None,
        attempts: 0,
        error: Some(String::from_str(reason)),
        output: Vec::new(),
        actions,
    }
}

/// After an abort, appends a record for every plan item from `start_index`
/// on: selected items as not run, unselected ones as skipped.
pub fn append_remaining_not_run_items(plan: &Plan, items: &mut Vec<RunItem>, start_index: usize)
    ensures
        final(items)@.take(old(items)@.len() as int) == old(items)@,
        start_index <= plan.items.len() ==> final(items)@.len() == old(items)@.len()
            + plan.items.len() - start_index,
        start_index > plan.items.len() ==> final(items)@ == old(items)@,
        forall|k: int|
            start_index <= k < plan.items.len() ==> is_unperformed_item(
                #[trigger] final(items)@[old(items)@.len() + k - start_index],
                plan.items@[k],
            ),
{
    let ghost base = items@;
    if start_index > plan.items.len() {
        return;
    }
    let mut k = start_index;
    while k < plan.items.len()
        invariant
            start_index <= k <= plan.items.len(),
            items@.len() == base.len() + k - start_index,
            items@.take(base.len() as int) == base,
            forall|m: int|
                start_index <= m < k ==> is_unperformed_item(
                    #[trigger] items@[base.len() + m - start_index],
                    plan.items@[m],
                ),
        decreases plan.items.len() - k,
    {
        let rec = unperformed_item(&plan.items[k]);
        items.push(rec);
        assert(items@.take(base.len() as int) =~= base);
        k += 1;
    }
}

/// The text describing a planned link action.
pub open spec fn describe_link_spec(a: LinkAction) -> Seq<char> {
    match a {
        LinkAction::Skip => "skip: already linked"@,
        LinkAction::Link => "link: create symlink"@,
        LinkAction::Backup(p) => "backup then link: "@ + p@,
        LinkAction::Relink => "relink: replace wrong symlink"@,
        LinkAction::Fail(reason) => "fail: "@ + reason@,
    }
}

/// Describes a planned link action.
pub fn describe_link_action(action: &LinkAction) -> (r: String)
    ensures
        r@ == describe_link_spec(*action),
{
    match action {
        LinkAction::Skip => String::from_str("skip: already linked"),
        LinkAction::Link => String::from_str("link: create symlink"),
        LinkAction::Backup(path) => {
            let mut s = String::from_str("backup then link: ");
            s.append(path.as_str());
            s
        },
        LinkAction::Relink => String::from_str("relink: replace wrong symlink"),
        LinkAction::Fail(reason) => {
            let mut s = String::from_str("fail: ");
            s.append(reason.as_str());
            s
        },
    }
}

/// The text describing a planned clean action.
pub open spec fn describe_clean_spec(a: CleanAction) -> Seq<char> {
    match a {
        CleanAction::Skip => "skip"@,
        CleanAction::RemoveSymlink => "remove symlink"@,
        CleanAction::BackupAndRemove(p) => "backup to "@ + p@ + " then remove"@,
    }
}

/// Describes a planned clean action.
pub fn describe_clean_action(action: &CleanAction) -> (r: String)
    ensures
        r@ == describe_clean_spec(*action),
{
    match action {
        CleanAction::Skip => String::from_str("skip"),
        CleanAction::RemoveSymlink => String::from_str("remove symlink"),
        CleanAction::BackupAndRemove(path) => {
            let mut s = String::from_str("backup to ");
            s.append(path.as_str());
            s.append(" then remove");
            s
        },
    }
}

/// The status a planned link action leads to.
pub open spec fn link_status_spec(a: LinkAction) -> ActionStatus {
    match a {
        LinkAction::Skip => ActionStatus::NoChange,
        LinkAction::Link | LinkAction::Relink => ActionStatus::WillLink,
        LinkAction::Backup(_) => ActionStatus::WillBackupLink,
        LinkAction::Fail(_) => ActionStatus::WillFail,
    }
}

/// The status a planned link action leads to.
pub fn link_status(action: &LinkAction) -> (r: ActionStatus)
    ensures
        r == link_status_spec(*action),
{
    match action {
        LinkAction::Skip => ActionStatus::NoChange,
        LinkAction::Link | LinkAction::Relink => ActionStatus::WillLink,
        LinkAction::Backup(_) => ActionStatus::WillBackupLink,
        LinkAction::Fail(_) => ActionStatus::WillFail,
    }
}

/// The status a planned clean action leads to.
pub open spec fn clean_status_spec(a: CleanAction) -> ActionStatus {
    match a {
        CleanAction::Skip => ActionStatus::NoChange,
        CleanAction::RemoveSymlink => ActionStatus::WillClean,
        CleanAction::BackupAndRemove(_) => ActionStatus::WillBackupRemove,
    }
}

/// What a clean step records, as laws over every clean action: it records
/// no change exactly when it skipped; removing a symlink is recorded as a
/// clean, backing up and removing as a backup-and-remove; the three are told
/// apart.
pub proof fn lemma_clean_status_laws(a: CleanAction)
    ensures
        (clean_status_spec(a) == ActionStatus::NoChange) == (a is Skip),
        (clean_status_spec(a) == ActionStatus::WillClean) == (a is RemoveSymlink),
        (clean_status_spec(a) == ActionStatus::WillBackupRemove) == (a is BackupAndRemove),
{
}

/// The status a planned clean action leads to.
pub fn clean_status(action: &CleanAction) -> (r: ActionStatus)
    ensures
        r == clean_status_spec(*action),
{
    match action {
        CleanAction::Skip => ActionStatus::NoChange,
        CleanAction::RemoveSymlink => ActionStatus::WillClean,
        CleanAction::BackupAndRemove(_) => ActionStatus::WillBackupRemove,
    }
}

/// The overall status of a finished run.
pub open spec fn run_status_spec(aborted: bool, any_failed: bool) -> RunStatus {
    if aborted {
        RunStatus::Aborted
    } else if any_failed {
        RunStatus::Failed
    } else {
        RunStatus::Success
    }
}

/// The overall status of a finished run: aborted wins over failed, which
/// wins over success.
pub fn final_run_status(aborted: bool, any_failed: bool) -> (r: RunStatus)
    ensures
        r == run_status_spec(aborted, any_failed),
{
    if aborted {
        RunStatus::Aborted
    } else if any_failed {
        RunStatus::Failed
    } else {
        RunStatus::Success
    }
}

/// What a finished shell command means for its action.
#[derive(Debug)]
pub struct ShellOutcome {
    pub status: ActionStatus,
    /// The error recorded for the action, if it failed.
    pub error: Option<String>,
    /// The message reported for the outcome, if any.
    pub message: Option<String>,
    /// The message is an error rather than information.
    pub message_is_error: bool,
    /// The command was killed by an abort.
    pub aborted: bool,
}

/// The outcome of a shell command from its exit code (`None` when killed):
/// exit 0 ran; a nonzero exit of an optional command is no change; any other
/// nonzero exit fails; no exit code means aborted.
pub fn shell_outcome(exit_code: Option<i32>, optional: bool) -> (r: ShellOutcome)
    ensures
        match exit_code {
            Some(c) => if c == 0 {
                r.status == ActionStatus::Executed && r.error is None && r.message is None && !r.aborted
            } else if optional {
                r.status == ActionStatus::NoChange && r.error is None && opt_string_view(r.message)
                    == Some("optional command failed (exit "@ + exit_code_text(c) + ")"@)
                    && !r.message_is_error && !r.aborted
            } else {
                r.status == ActionStatus::WillFail && opt_string_view(r.error) == Some(
                    "exit code "@ + exit_code_text(c),
                ) && opt_string_view(r.message) == Some("command failed with exit code "@ + exit_code_text(c))
                    && r.message_is_error && !r.aborted
            },
            None => r.status == ActionStatus::Aborted && r.aborted && r.message is None
                && opt_string_view(r.error) == Some("aborted"@),
        },
{
    match exit_code {
        Some(0) => ShellOutcome {
            status: ActionStatus::Executed,
            error: None,
            message: None,
            message_is_error: false,
            aborted: false,
        },
        Some(code) => {
            let text = string_of(exit_code_chars(code).as_slice());
            if optional {
                let mut m = String::from_str("optional command failed (exit ");
                m.append(text.as_str());
                m.append(")");
                ShellOutcome {
                    status: ActionStatus::NoChange,
                    error: None,
                    message: Some(m),
                    message_is_error: false,
                    aborted: false,
                }
            } else {
                let mut m = String::from_str("command failed with exit code ");
                m.append(text.as_str());
                let mut e = String::from_str("exit code ");
                e.append(text.as_str());
                ShellOutcome {
                    status: ActionStatus::WillFail,
                    error: Some(e),
                    message: Some(m),
                    message_is_error: true,
                    aborted: false,
                }
            }
        },
        None => ShellOutcome {
            status: ActionStatus::Aborted,
            error: Some(String::from_str("aborted")),
            message: None,
            message_is_error: false,
            aborted: true,
        },
    }
}

/// The decimal text of an exit code, with a leading minus when negative.
pub open spec fn exit_code_text(code: i32) -> Seq<char> {
    if code < 0 {
        seq!['-'] + crate::text::decimal((-code) as nat)
    } else {
        crate::text::decimal(code as nat)
    }
}

/// The decimal text of an exit code.
pub fn exit_code_chars(code: i32) -> (r: Vec<char>)
    ensures
        r@ == exit_code_text(code),
{
    if code < 0 {
        let magnitude: i64 = -(code as i64);
        let mut r = Vec::new();
        r.push('-');
        let mut d = decimal_chars(magnitude as u64);
        r.append(&mut d);
        r
    } else {
        decimal_chars(code as u64)
    }
}

/// The last `MAX_HISTORY_OUTPUT_LINES` lines of `s` (all of them when fewer).
pub open spec fn capped(s: Seq<OutputLine>) -> Seq<OutputLine> {
    if s.len() > MAX_HISTORY_OUTPUT_LINES {
        s.skip(s.len() - MAX_HISTORY_OUTPUT_LINES)
    } else {
        s
    }
}

/// Drops the oldest lines so that at most `MAX_HISTORY_OUTPUT_LINES` remain.
pub fn cap_output_len(output: &mut Vec<OutputLine>)
    ensures
        final(output)@ == capped(old(output)@),
{
    if output.len() > MAX_HISTORY_OUTPUT_LINES {
        let drop = output.len() - MAX_HISTORY_OUTPUT_LINES;
        let ghost o = output@;
        let tail = output.split_off(drop);
        assert(tail@ =~= o.skip(drop as int));
        *output = tail;
    }
}

/// Records one output line and caps the history.
pub fn push_output_line(output: &mut Vec<OutputLine>, stream: OutputStream, line: &str)
    ensures
        final(output)@.len() > 0,
        final(output)@ == capped(old(output)@.push(OutputLine { stream, line: final(output)@.last().line })),
        final(output)@.last().line@ == line@,
        final(output)@.last().stream == stream,
{
    output.push(OutputLine { stream, line: String::from_str(line) });
    let ghost pushed = output@;
    cap_output_len(output);
    proof {
        if pushed.len() > MAX_HISTORY_OUTPUT_LINES {
            assert(output@.last() == pushed.last());
        }
    }
}

/// Output never grows past the history cap, and the latest line is kept.
pub proof fn lemma_capped_keeps_latest(s: Seq<OutputLine>)
    requires
        s.len() > 0,
    ensures
        capped(s).len() <= MAX_HISTORY_OUTPUT_LINES || capped(s) == s,
        capped(s).len() <= MAX_HISTORY_OUTPUT_LINES || s.len() <= MAX_HISTORY_OUTPUT_LINES,
        capped(s).len() > 0,
        capped(s).last() == s.last(),
{
}

} // verus!
