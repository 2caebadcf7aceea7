//! The decisions of running a plan.
//!
//! Running a plan alternates outside work (installing, touching the
//! filesystem, spawning shell commands) with decisions about what that work
//! means. The caller performs the work and hands back what came of it; the
//! functions here settle each action into a record, decide whether an item
//! goes on, and assemble the run.

use vstd::prelude::*;
use crate::execute::result::{
    action_kind, action_kind_spec, append_not_run_actions, append_remaining_not_run_items,
    cap_output_len, capped, clean_status, clean_status_spec, describe_clean_action,
    describe_clean_spec, describe_link_action, describe_link_spec, final_run_status,
    is_unperformed_item, is_unperformed_record, link_status, link_status_spec, push_output_line,
    run_status_spec, shell_outcome, unperformed_item, exit_code_text,
};
use crate::model::{
    describe_spec, Action, ActionStatus, HostInfo, OutputLine, OutputStream, Plan, PlanItem, Run,
    RunAction, RunItem, RunStatus,
};
use crate::ops::clean::CleanAction;
use crate::ops::link::LinkAction;
use crate::text::opt_string_view;

verus! {

/// A message raised while settling an action, reported as information or as
/// an error.
#[derive(Debug)]
pub struct Notice {
    pub is_error: bool,
    pub message: String,
}

/// What one action came to.
#[derive(Debug)]
pub struct ActionRecord {
    pub status: ActionStatus,
    pub error: Option<String>,
    pub output: Vec<OutputLine>,
    pub notices: Vec<Notice>,
    /// The attempts an install made; `None` for other actions.
    pub attempts: Option<u32>,
    /// The work was cut short by an abort.
    pub aborted: bool,
}

/// What an install reported when it ran to an end.
#[derive(Debug)]
pub struct InstallReport {
    pub status: ActionStatus,
    pub error: Option<String>,
    pub attempts: u32,
    pub output: Vec<OutputLine>,
}

/// What evaluating a shell step's condition came to.
#[derive(Debug)]
pub enum ConditionOutcome {
    Matched,
    NotMatched,
    /// The condition could not be evaluated.
    Failed(String),
}

/// `rec` carries exactly one notice, `msg`, which is also its only output line.
pub open spec fn one_notice(rec: ActionRecord, status: ActionStatus, error: Option<Seq<char>>, is_error: bool, msg: Seq<char>) -> bool {
    &&& rec.status == status
    &&& opt_string_view(rec.error) == error
    &&& rec.notices@.len() == 1
    &&& rec.notices@[0].is_error == is_error
    &&& rec.notices@[0].message@ == msg
    &&& rec.output@.len() == 1
    &&& rec.output@[0].stream == OutputStream::Action
    &&& rec.output@[0].line@ == msg
    &&& rec.attempts is None
    &&& !rec.aborted
}

fn with_notice(status: ActionStatus, error: Option<String>, is_error: bool, msg: String) -> (r: ActionRecord)
    ensures
        one_notice(r, status, opt_string_view(error), is_error, msg@),
{
    let mut output: Vec<OutputLine> = Vec::new();
    push_output_line(&mut output, OutputStream::Action, msg.as_str());
    let mut notices: Vec<Notice> = Vec::new();
    notices.push(Notice { is_error, message: msg });
    ActionRecord { status, error, output, notices, attempts: None, aborted: false }
}

fn concat(a: &str, b: &str) -> (r: String)
    ensures
        r@ == a@ + b@,
{
    let mut s = String::from_str(a);
    s.append(b);
    s
}

/// A failure: the error text `e` and the message `prefix` + `e`.
fn failure(prefix: &str, e: &String) -> (r: ActionRecord)
    ensures
        one_notice(r, ActionStatus::WillFail, Some(e@), true, prefix@ + e@),
{
    with_notice(ActionStatus::WillFail, Some(e.clone()), true, concat(prefix, e.as_str()))
}

/// Settles an install: what it reported, or, when it could not run, a
/// failure with the message `install failed: <error>`.
pub fn settle_install(result: Result<InstallReport, String>) -> (r: ActionRecord)
    ensures
        match result {
            Ok(rep) => r.status == rep.status && r.error == rep.error && r.output@ == capped(rep.output@)
                && r.notices@.len() == 0 && r.attempts == Some(rep.attempts) && !r.aborted,
            Err(e) => one_notice(r, ActionStatus::WillFail, Some(e@), true, "install failed: "@ + e@),
        },
{
    match result {
        Ok(rep) => {
            let mut output = rep.output;
            cap_output_len(&mut output);
            ActionRecord {
                status: rep.status,
                error: rep.error,
                output,
                notices: Vec::new(),
                attempts: Some(rep.attempts),
                aborted: false,
            }
        },
        Err(e) => failure("install failed: ", &e),
    }
}

/// Settles a link: a planning failure, or the planned action applied (the
/// status the plan leads to and `linked <target> -> <source> (<plan>)`) or
/// failing to apply. `applied` is read only when planning succeeded.
pub fn settle_link(
    target: &str,
    source: &str,
    planned: &Result<LinkAction, String>,
    applied: &Result<(), String>,
) -> (r: ActionRecord)
    ensures
        match planned {
            Err(e) => one_notice(r, ActionStatus::WillFail, Some(e@), true, "link planning failed: "@ + e@),
            Ok(a) => match applied {
                Ok(_) => one_notice(
                    r,
                    link_status_spec(*a),
                    None,
                    false,
                    "linked "@ + target@ + " -> "@ + source@ + " ("@ + describe_link_spec(*a) + ")"@,
                ),
                Err(e) => one_notice(r, ActionStatus::WillFail, Some(e@), true, "link failed: "@ + e@),
            },
        },
{
    match planned {
        Err(e) => failure("link planning failed: ", e),
        Ok(a) => match applied {
            Ok(_) => {
                let desc = describe_link_action(a);
                let mut msg = concat("linked ", target);
                msg.append(" -> ");
                msg.append(source);
                msg.append(" (");
                msg.append(desc.as_str());
                msg.append(")");
                with_notice(link_status(a), None, false, msg)
            },
            Err(e) => failure("link failed: ", e),
        },
    }
}

/// Settles a directory creation: `created <target>` (or `exists <target>`
/// when it was already there, no change), or a failure.
pub fn settle_create(target: &str, existed: bool, result: &Result<(), String>) -> (r: ActionRecord)
    ensures
        match result {
            Ok(_) => one_notice(
                r,
                if existed {
                    ActionStatus::NoChange
                } else {
                    ActionStatus::WillCreate
                },
                None,
                false,
                (if existed {
                    "exists "@
                } else {
                    "created "@
                }) + target@,
            ),
            Err(e) => one_notice(r, ActionStatus::WillFail, Some(e@), true, "create failed: "@ + e@),
        },
{
    match result {
        Ok(_) => {
            if existed {
                with_notice(ActionStatus::NoChange, None, false, concat("exists ", target))
            } else {
                with_notice(ActionStatus::WillCreate, None, false, concat("created ", target))
            }
        },
        Err(e) => failure("create failed: ", e),
    }
}

/// Settles a shell step's condition: `None` when it matched and the command
/// is to run; a skip when it did not match; a failure when it could not be
/// evaluated.
pub fn settle_condition(cond: &str, outcome: &ConditionOutcome) -> (r: Option<ActionRecord>)
    ensures
        match outcome {
            ConditionOutcome::Matched => r is None,
            ConditionOutcome::NotMatched => r matches Some(rec) && one_notice(
                rec,
                ActionStatus::WillSkip,
                None,
                false,
                "condition skipped: "@ + cond@,
            ),
            ConditionOutcome::Failed(e) => r matches Some(rec) && one_notice(
                rec,
                ActionStatus::WillFail,
                Some(e@),
                true,
                "condition error: "@ + e@,
            ),
        },
{
    match outcome {
        ConditionOutcome::Matched => None,
        ConditionOutcome::NotMatched => Some(
            with_notice(ActionStatus::WillSkip, None, false, concat("condition skipped: ", cond)),
        ),
        ConditionOutcome::Failed(e) => Some(failure("condition error: ", e)),
    }
}

/// The message when the sudo session could not be kept alive.
pub const SUDO_EXPIRED_MESSAGE: &'static str = "sudo session expired — re-run to re-authenticate";

/// What a shell command needs of sudo before it runs.
#[derive(Debug)]
pub enum SudoStep {
    /// The command does not use sudo.
    NotNeeded,
    /// The cached session was refreshed; run the command.
    Ready,
    /// The session could not be refreshed: ask the user, for this item.
    Prompt(String),
}

/// Before a shell command of item `item`: a command with the word `sudo`
/// needs a live session; `refreshed` is whether refreshing the cached
/// session without asking worked (read only for such a command).
pub fn sudo_step(command: &str, item: &str, refreshed: bool) -> (r: SudoStep)
    ensures
        !crate::ops::shell::mentions_sudo(command@) ==> r is NotNeeded,
        crate::ops::shell::mentions_sudo(command@) && refreshed ==> r is Ready,
        crate::ops::shell::mentions_sudo(command@) && !refreshed ==> (r matches SudoStep::Prompt(n) && n@ == item@),
{
    if !crate::ops::shell::command_contains_sudo(command) {
        SudoStep::NotNeeded
    } else if refreshed {
        SudoStep::Ready
    } else {
        SudoStep::Prompt(String::from_str(item))
    }
}

/// After asking for sudo: the command runs when the user granted it
/// (`None`); else the step fails as an expired session.
pub fn after_sudo_prompt(granted: bool) -> (r: Option<ActionRecord>)
    ensures
        granted <==> r is None,
        r matches Some(rec) ==> one_notice(
            rec,
            ActionStatus::WillFail,
            Some("sudo session expired"@),
            true,
            SUDO_EXPIRED_MESSAGE@,
        ),
{
    if granted {
        None
    } else {
        Some(settle_sudo_expired())
    }
}

/// Settles a shell step whose command needs sudo when the session could not
/// be refreshed.
pub fn settle_sudo_expired() -> (r: ActionRecord)
    ensures
        one_notice(
            r,
            ActionStatus::WillFail,
            Some("sudo session expired"@),
            true,
            SUDO_EXPIRED_MESSAGE@,
        ),
{
    with_notice(
        ActionStatus::WillFail,
        Some(String::from_str("sudo session expired")),
        true,
        String::from_str(SUDO_EXPIRED_MESSAGE),
    )
}

/// `rec` reports the single notice `msg` for a finished command whose output
/// was `out`, the notice being appended as a last output line.
pub open spec fn exit_notice(rec: ActionRecord, out: Seq<OutputLine>, is_error: bool, msg: Seq<char>) -> bool {
    &&& rec.notices@.len() == 1
    &&& rec.notices@[0].is_error == is_error
    &&& rec.notices@[0].message@ == msg
    &&& rec.output@.len() > 0
    &&& rec.output@ == capped(capped(out).push(rec.output@.last()))
    &&& rec.output@.last().stream == OutputStream::Action
    &&& rec.output@.last().line@ == msg
    &&& !rec.aborted
}

/// Settles a shell command: its exit code and output (exit 0 ran; a failing
/// optional command is no change; any other failure fails; no exit code is
/// an abort), or a failure to run it at all.
pub fn settle_command(result: Result<(Option<i32>, Vec<OutputLine>), String>, optional: bool) -> (r: ActionRecord)
    ensures
        match result {
            Ok((code, out)) => r.attempts is None && match code {
                Some(c) => if c == 0 {
                    r.status == ActionStatus::Executed && r.error is None && r.notices@.len() == 0
                        && r.output@ == capped(out@) && !r.aborted
                } else if optional {
                    r.status == ActionStatus::NoChange && r.error is None && exit_notice(
                        r,
                        out@,
                        false,
                        "optional command failed (exit "@ + exit_code_text(c) + ")"@,
                    )
                } else {
                    r.status == ActionStatus::WillFail && opt_string_view(r.error) == Some(
                        "exit code "@ + exit_code_text(c),
                    ) && exit_notice(r, out@, true, "command failed with exit code "@ + exit_code_text(c))
                },
                None => r.status == ActionStatus::Aborted && r.aborted && opt_string_view(r.error) == Some(
                    "aborted"@,
                ) && r.notices@.len() == 0 && r.output@ == capped(out@),
            },
            Err(e) => one_notice(r, ActionStatus::WillFail, Some(e@), true, "command failed: "@ + e@),
        },
{
    match result {
        Ok((code, out)) => {
            let mut output = out;
            cap_output_len(&mut output);
            let o = shell_outcome(code, optional);
            let mut notices: Vec<Notice> = Vec::new();
            match o.message {
                Some(m) => {
                    push_output_line(&mut output, OutputStream::Action, m.as_str());
                    notices.push(Notice { is_error: o.message_is_error, message: m });
                },
                None => {},
            }
            ActionRecord {
                status: o.status,
                error: o.error,
                output,
                notices,
                attempts: None,
                aborted: o.aborted,
            }
        },
        Err(e) => failure("command failed: ", &e),
    }
}

/// Settles a clean: a planning failure, or the planned action applied (the
/// status the plan leads to and `cleaned <target> (<plan>)`) or failing to
/// apply. `applied` is read only when planning succeeded.
pub fn settle_clean(target: &str, planned: &Result<CleanAction, String>, applied: &Result<(), String>) -> (r: ActionRecord)
    ensures
        match planned {
            Err(e) => one_notice(r, ActionStatus::WillFail, Some(e@), true, "clean planning failed: "@ + e@),
            Ok(a) => match applied {
                Ok(_) => one_notice(
                    r,
                    clean_status_spec(*a),
                    None,
                    false,
                    "cleaned "@ + target@ + " ("@ + describe_clean_spec(*a) + ")"@,
                ),
                Err(e) => one_notice(r, ActionStatus::WillFail, Some(e@), true, "clean failed: "@ + e@),
            },
        },
{
    match planned {
        Err(e) => failure("clean planning failed: ", e),
        Ok(a) => match applied {
            Ok(_) => {
                let desc = describe_clean_action(a);
                let mut msg = concat("cleaned ", target);
                msg.append(" (");
                msg.append(desc.as_str());
                msg.append(")");
                with_notice(clean_status(a), None, false, msg)
            },
            Err(e) => failure("clean failed: ", e),
        },
    }
}

/// `r` records `action` with what it came to.
pub open spec fn is_action_record(r: RunAction, action: Action, status: ActionStatus, error: Option<String>, output: Seq<OutputLine>) -> bool {
    &&& r.kind@ == action_kind_spec(action)
    &&& r.name@ == describe_spec(action)
    &&& r.status == status
    &&& r.error == error
    &&& r.output@ == capped(output)
}

/// The progress of one selected item through its actions.
#[derive(Debug)]
pub struct ItemRun {
    pub error: Option<String>,
    pub attempts: u32,
    pub last_status: ActionStatus,
    pub output: Vec<OutputLine>,
    pub actions: Vec<RunAction>,
    /// Some action was cut short by an abort.
    pub aborted: bool,
}

impl ItemRun {
    /// An item about to run its first action.
    pub fn new() -> (r: ItemRun)
        ensures
            r.error is None,
            r.attempts == 0,
            r.last_status == ActionStatus::WillRun,
            r.output@.len() == 0,
            r.actions@.len() == 0,
            !r.aborted,
    {
        ItemRun {
            error: None,
            attempts: 0,
            last_status: ActionStatus::WillRun,
            output: Vec::new(),
            actions: Vec::new(),
            aborted: false,
        }
    }

    /// Records what action `index` of `plan_actions` came to. When it failed,
    /// the remaining actions are recorded as not run and `true` is returned:
    /// the item stops there.
    pub fn record(&mut self, plan_actions: &Vec<Action>, index: usize, rec: ActionRecord) -> (stop: bool)
        requires
            index < plan_actions@.len(),
        ensures
            final(self).last_status == rec.status,
            final(self).attempts == match rec.attempts {
                Some(n) => n,
                None => old(self).attempts,
            },
            final(self).aborted == (old(self).aborted || rec.aborted || rec.status == ActionStatus::Aborted),
            final(self).output@ == capped(old(self).output@ + capped(rec.output@)),
            final(self).error == (if rec.error is Some {
                rec.error
            } else {
                old(self).error
            }),
            stop == final(self).error is Some,
            final(self).actions@.take(old(self).actions@.len() as int) == old(self).actions@,
            final(self).actions@.len() == old(self).actions@.len() + 1 + (if stop {
                plan_actions@.len() - index - 1
            } else {
                0
            }),
            is_action_record(
                final(self).actions@[old(self).actions@.len() as int],
                plan_actions@[index as int],
                rec.status,
                rec.error,
                rec.output@,
            ),
            stop ==> forall|k: int|
                index < k < plan_actions@.len() ==> is_unperformed_record(
                    #[trigger] final(self).actions@[old(self).actions@.len() + k - index],
                    plan_actions@[k],
                    ActionStatus::NotRun,
                    "not run after previous failure"@,
                ),
    {
        let _n_actions = plan_actions.len();
        let ActionRecord { status, error, output, notices: _, attempts, aborted } = rec;
        let mut action_output = output;
        cap_output_len(&mut action_output);
        let ghost before = self.output@;
        let mut copy_out: Vec<OutputLine> = Vec::new();
        let mut i: usize = 0;
        while i < action_output.len()
            invariant
                i <= action_output@.len(),
                copy_out@ == action_output@.take(i as int),
            decreases action_output@.len() - i,
        {
            let line = &action_output[i];
            copy_out.push(OutputLine { stream: line.stream, line: line.line.clone() });
            proof {
                assert(action_output@.take(i + 1) =~= action_output@.take(i as int).push(action_output@[i as int]));
            }
            i += 1;
        }
        proof {
            assert(action_output@.take(action_output@.len() as int) =~= action_output@);
        }
        self.output.append(&mut copy_out);
        cap_output_len(&mut self.output);
        match attempts {
            Some(n) => {
                self.attempts = n;
            },
            None => {},
        }
        self.last_status = status;
        if aborted || matches!(status, ActionStatus::Aborted) {
            self.aborted = true;
        }
        if error.is_some() {
            self.error = crate::model::clone_opt(&error);
        }
        let ghost base = self.actions@;
        let action = &plan_actions[index];
        self.actions.push(
            RunAction {
                kind: String::from_str(action_kind(action)),
                name: action.describe(),
                status,
                error,
                output: action_output,
            },
        );
        let stop = self.error.is_some();
        if stop {
            let ghost pushed = self.actions@;
            append_not_run_actions(&mut self.actions, plan_actions, index + 1, "not run after previous failure");
            proof {
                assert(self.actions@.take(pushed.len() as int) == pushed);
                assert(self.actions@[base.len() as int] == pushed[base.len() as int]);
                assert(self.actions@.take(base.len() as int) =~= base);
                assert forall|k: int| index < k < plan_actions@.len() implies is_unperformed_record(
                    #[trigger] self.actions@[base.len() + k - index],
                    plan_actions@[k],
                    ActionStatus::NotRun,
                    "not run after previous failure"@,
                ) by {
                    assert(base.len() + k - index == pushed.len() + k - (index + 1));
                }
            }
        } else {
            proof {
                assert(self.actions@.take(base.len() as int) =~= base);
            }
        }
        stop
    }

    /// Records an abort seen before action `index` ran: the item is aborted
    /// and the remaining actions are recorded as not run.
    pub fn abort_at(&mut self, plan_actions: &Vec<Action>, index: usize)
        ensures
            final(self).last_status == ActionStatus::Aborted,
            opt_string_view(final(self).error) == Some("aborted"@),
            final(self).aborted,
            final(self).attempts == old(self).attempts,
            final(self).output == old(self).output,
            final(self).actions@.take(old(self).actions@.len() as int) == old(self).actions@,
            index <= plan_actions@.len() ==> final(self).actions@.len() == old(self).actions@.len()
                + plan_actions@.len() - index,
            forall|k: int|
                index <= k < plan_actions@.len() ==> is_unperformed_record(
                    #[trigger] final(self).actions@[old(self).actions@.len() + k - index],
                    plan_actions@[k],
                    ActionStatus::NotRun,
                    "not run (aborted)"@,
                ),
    {
        self.aborted = true;
        self.last_status = ActionStatus::Aborted;
        self.error = Some(String::from_str("aborted"));
        append_not_run_actions(&mut self.actions, plan_actions, index, "not run (aborted)");
    }

    /// The record of the item.
    pub fn finish(self, plan_item: &PlanItem, started_at: String, finished_at: String, duration_ms: u64) -> (r: RunItem)
        ensures
            r.id == plan_item.id,
            r.name == plan_item.name,
            r.status == self.last_status,
            r.started_at == Some(started_at),
            r.finished_at == Some(finished_at),
            r.duration_ms == Some(duration_ms),
            r.attempts == self.attempts,
            r.error == self.error,
            r.output == self.output,
            r.actions == self.actions,
    {
        RunItem {
            id: plan_item.id.clone(),
            name: plan_item.name.clone(),
            status: self.last_status,
            started_at: Some(started_at),
            finished_at: Some(finished_at),
            duration_ms: Some(duration_ms),
            attempts: self.attempts,
            error: self.error,
            output: self.output,
            actions: self.actions,
        }
    }
}

/// The progress of a run through the items of its plan.
#[derive(Debug)]
pub struct RunProgress {
    pub items: Vec<RunItem>,
    pub any_failed: bool,
    pub aborted: bool,
    /// Where the items that were never reached begin, once the run stopped.
    pub not_run_start: Option<usize>,
}

impl RunProgress {
    /// A run about to start.
    pub fn new() -> (r: RunProgress)
        ensures
            r.items@.len() == 0,
            !r.any_failed,
            !r.aborted,
            r.not_run_start is None,
    {
        RunProgress { items: Vec::new(), any_failed: false, aborted: false, not_run_start: None }
    }

    /// Records an abort seen before item `index` started.
    pub fn abort_before(&mut self, index: usize)
        ensures
            final(self).aborted,
            final(self).not_run_start == Some(index),
            final(self).items == old(self).items,
            final(self).any_failed == old(self).any_failed,
    {
        self.aborted = true;
        self.not_run_start = Some(index);
    }

    /// Records an unselected item as skipped, each action alike.
    pub fn skip(&mut self, plan_item: &PlanItem)
        requires
            !plan_item.selected,
        ensures
            final(self).items@.len() == old(self).items@.len() + 1,
            final(self).items@.take(old(self).items@.len() as int) == old(self).items@,
            is_unperformed_item(final(self).items@.last(), *plan_item),
            final(self).any_failed == old(self).any_failed,
            final(self).aborted == old(self).aborted,
            final(self).not_run_start == old(self).not_run_start,
    {
        let ghost before = self.items@;
        self.items.push(unperformed_item(plan_item));
        assert(self.items@.take(before.len() as int) =~= before);
    }

    /// Records item `index` once its actions are done. The run stops (`true`)
    /// when the item was aborted; the items after it are then not run.
    pub fn finish_item(
        &mut self,
        index: usize,
        plan_item: &PlanItem,
        item: ItemRun,
        started_at: String,
        finished_at: String,
        duration_ms: u64,
    ) -> (stop: bool)
        requires
            index < usize::MAX,
        ensures
            final(self).any_failed == (old(self).any_failed || item.error is Some),
            final(self).aborted == (old(self).aborted || item.aborted),
            stop == final(self).aborted,
            final(self).not_run_start == (if stop {
                Some((index + 1) as usize)
            } else {
                old(self).not_run_start
            }),
            final(self).items@.len() == old(self).items@.len() + 1,
            final(self).items@.take(old(self).items@.len() as int) == old(self).items@,
            final(self).items@.last().id == plan_item.id,
            final(self).items@.last().status == item.last_status,
            final(self).items@.last().error == item.error,
            final(self).items@.last().actions == item.actions,
            final(self).items@.last().attempts == item.attempts,
            final(self).items@.last().name == plan_item.name,
            final(self).items@.last().output == item.output,
            final(self).items@.last().started_at == Some(started_at),
            final(self).items@.last().finished_at == Some(finished_at),
            final(self).items@.last().duration_ms == Some(duration_ms),
    {
        if item.error.is_some() {
            self.any_failed = true;
        }
        if item.aborted {
            self.aborted = true;
        }
        let ghost before = self.items@;
        let ghost it = item;
        self.items.push(item.finish(plan_item, started_at, finished_at, duration_ms));
        assert(self.items@.take(before.len() as int) =~= before);
        if self.aborted {
            self.not_run_start = Some(index + 1);
            true
        } else {
            false
        }
    }

    /// The run record: the items recorded so far, then, when the run stopped
    /// early, the items never reached (selected ones not run, others
    /// skipped); aborted wins over failed, which wins over success.
    pub fn finish(self, plan: &Plan, id: String, started_at: String, finished_at: String) -> (r: Run)
        ensures
            r.id == id,
            r.plan_id == Some(plan.id),
            r.mode == plan.mode,
            r.started_at == started_at,
            r.finished_at == Some(finished_at),
            r.status == run_status_spec(self.aborted, self.any_failed),
            r.config_hash == plan.config_hash,
            r.config_path == Some(plan.config_path),
            r.host == Some(plan.host),
            r.items@.take(self.items@.len() as int) == self.items@,
            match self.not_run_start {
                Some(s) => s <= plan.items@.len() ==> r.items@.len() == self.items@.len() + plan.items@.len() - s
                    && forall|k: int|
                    s <= k < plan.items@.len() ==> is_unperformed_item(
                        #[trigger] r.items@[self.items@.len() + k - s],
                        plan.items@[k],
                    ),
                None => r.items@ == self.items@,
            },
    {
        let status = final_run_status(self.aborted, self.any_failed);
        let mut items = self.items;
        match self.not_run_start {
            Some(s) => append_remaining_not_run_items(plan, &mut items, s),
            None => {},
        }
        Run {
            id,
            plan_id: Some(plan.id.clone()),
            mode: plan.mode,
            started_at,
            finished_at: Some(finished_at),
            status,
            config_hash: plan.config_hash.clone(),
            config_path: Some(plan.config_path.clone()),
            host: Some(plan.host.copy()),
            items,
        }
    }
}

} // verus!
