//! Data types for plans, runs, steps and items.
//!
//! Paths are carried as strings holding the path's display form.

use vstd::prelude::*;
use crate::text::{decimal, decimal_chars, string_of};

verus! {

/// The run mode of a plan.
#[derive(Clone, Copy, Debug, PartialEq, Eq, Structural)]
pub enum Mode {
    Deploy,
}

/// A plan built from a configuration: the items a deployment would run.
#[derive(Debug)]
pub struct Plan {
    pub id: String,
    pub mode: Mode,
    /// ISO 8601 creation time.
    pub created_at: String,
    pub config_path: String,
    pub config_hash: String,
    pub host: HostInfo,
    pub items: Vec<PlanItem>,
    /// Whether the plan includes an auto-install-package-manager step.
    pub auto_install_pkg_manager: bool,
}

/// The machine a plan was built for.
#[derive(Debug)]
pub struct HostInfo {
    pub hostname: String,
    pub os: String,
    pub arch: String,
    pub user: String,
    pub home: String,
}

/// One selectable unit of a plan: a named group of actions in a layer.
#[derive(Debug)]
pub struct PlanItem {
    pub id: String,
    pub name: String,
    /// "terminal" / "shell" / "multiplexer" / "software" / "enhancement" / "misc".
    pub layer: String,
    pub actions: Vec<Action>,
    pub selected: bool,
}

/// One operation of a plan item.
#[derive(Debug)]
pub enum Action {
    Install { pkg_mgr: String, binary: String, source: String },
    Link { target: String, source: String, backup: bool, relink: bool },
    Create { target: String },
    Shell {
        command: String,
        description: Option<String>,
        optional: bool,
        if_condition: Option<String>,
    },
    Clean { target: String, force: bool },
}

/// The status of an action (planned or executed).
#[derive(Clone, Copy, Debug, PartialEq, Eq, Structural)]
pub enum ActionStatus {
    WillRun,
    Executed,
    WillSkip,
    NotRun,
    Aborted,
    WillFail,
    NoChange,
    WillInstall,
    WillCreate,
    WillLink,
    WillBackupLink,
    WillClean,
    WillBackupRemove,
}

/// A run: the record of executing a plan.
#[derive(Debug)]
pub struct Run {
    pub id: String,
    pub plan_id: Option<String>,
    pub mode: Mode,
    pub started_at: String,
    pub finished_at: Option<String>,
    pub status: RunStatus,
    pub config_hash: String,
    pub config_path: Option<String>,
    pub host: Option<HostInfo>,
    pub items: Vec<RunItem>,
}

/// The overall status of a run.
#[derive(Clone, Copy, Debug, PartialEq, Eq, Structural)]
pub enum RunStatus {
    Running,
    Success,
    Failed,
    Aborted,
}

/// Counts of action outcomes in a run.
#[derive(Clone, Copy, Debug, PartialEq, Eq, Structural)]
pub struct RunSummary {
    pub ran: usize,
    pub changed: usize,
    pub no_change: usize,
    pub failed: usize,
    pub aborted: usize,
    pub skipped: usize,
    pub not_run: usize,
}

/// The record of one plan item in a run.
#[derive(Debug)]
pub struct RunItem {
    pub id: String,
    pub name: String,
    pub status: ActionStatus,
    pub started_at: Option<String>,
    pub finished_at: Option<String>,
    pub duration_ms: Option<u64>,
    pub attempts: u32,
    pub error: Option<String>,
    /// Output lines of the item, capped at `MAX_HISTORY_OUTPUT_LINES`.
    pub output: Vec<OutputLine>,
    /// Per-action results; older history entries may have none.
    pub actions: Vec<RunAction>,
}

/// The record of one action in a run.
#[derive(Debug)]
pub struct RunAction {
    pub kind: String,
    pub name: String,
    pub status: ActionStatus,
    pub error: Option<String>,
    pub output: Vec<OutputLine>,
}

/// A single line of output from an action.
#[derive(Debug)]
pub struct OutputLine {
    pub stream: OutputStream,
    pub line: String,
}

/// The stream an output line came from.
#[derive(Clone, Copy, Debug, PartialEq, Eq, Structural)]
pub enum OutputStream {
    Stdout,
    Stderr,
    Action,
}

/// Maximum output lines stored per step in run history.
pub const MAX_HISTORY_OUTPUT_LINES: usize = 500;

/// Per-machine selection state: item id to selected, one entry per id.
#[derive(Debug)]
pub struct Selection {
    pub items: Vec<(String, bool)>,
}

/// A copy of an optional string.
pub fn clone_opt(o: &Option<String>) -> (r: Option<String>)
    ensures
        r == *o,
{
    match o {
        Some(s) => Some(s.clone()),
        None => None,
    }
}

/// The text of `Action::describe`.
pub open spec fn describe_spec(a: Action) -> Seq<char> {
    match a {
        Action::Install { binary, .. } => "install "@ + binary@,
        Action::Link { target, source, .. } => "link "@ + target@ + " -> "@ + source@,
        Action::Create { target } => "create "@ + target@,
        Action::Shell { command, description, .. } => match description {
            Some(d) => d@,
            None => command@,
        },
        Action::Clean { target, force } => if force {
            "clean (force) "@ + target@
        } else {
            "clean "@ + target@
        },
    }
}

impl HostInfo {
    /// A copy of the host record.
    pub fn copy(&self) -> (r: HostInfo)
        ensures
            r == *self,
    {
        HostInfo {
            hostname: self.hostname.clone(),
            os: self.os.clone(),
            arch: self.arch.clone(),
            user: self.user.clone(),
            home: self.home.clone(),
        }
    }
}

impl Action {
    /// A one-line human description of the action.
    pub fn describe(&self) -> (r: String)
        ensures
            r@ == describe_spec(*self),
    {
        match self {
            Action::Install { binary, .. } => {
                let mut s = String::from_str("install ");
                s.append(binary.as_str());
                s
            },
            Action::Link { target, source, .. } => {
                let mut s = String::from_str("link ");
                s.append(target.as_str());
                s.append(" -> ");
                s.append(source.as_str());
                s
            },
            Action::Create { target } => {
                let mut s = String::from_str("create ");
                s.append(target.as_str());
                s
            },
            Action::Shell { command, description, .. } => match description {
                Some(d) => d.clone(),
                None => command.clone(),
            },
            Action::Clean { target, force } => {
                let mut s = if *force {
                    String::from_str("clean (force) ")
                } else {
                    String::from_str("clean ")
                };
                s.append(target.as_str());
                s
            },
        }
    }

    /// A copy of the action.
    pub fn copy(&self) -> (r: Action)
        ensures
            r == *self,
    {
        match self {
            Action::Install { pkg_mgr, binary, source } => Action::Install {
                pkg_mgr: pkg_mgr.clone(),
                binary: binary.clone(),
                source: source.clone(),
            },
            Action::Link { target, source, backup, relink } => Action::Link {
                target: target.clone(),
                source: source.clone(),
                backup: *backup,
                relink: *relink,
            },
            Action::Create { target } => Action::Create { target: target.clone() },
            Action::Shell { command, description, optional, if_condition } => Action::Shell {
                command: command.clone(),
                description: clone_opt(description),
                optional: *optional,
                if_condition: clone_opt(if_condition),
            },
            Action::Clean { target, force } => Action::Clean { target: target.clone(), force: *force },
        }
    }
}

/// The user-facing outcome class of an action status.
#[derive(Clone, Copy, Debug, PartialEq, Eq, Structural)]
pub enum Outcome {
    Ran,
    Changed,
    NoChange,
    Failed,
    Aborted,
    Skipped,
    NotRun,
}

/// The outcome class of a status.
pub open spec fn outcome_of(s: ActionStatus) -> Outcome {
    match s {
        ActionStatus::WillFail => Outcome::Failed,
        ActionStatus::Aborted => Outcome::Aborted,
        ActionStatus::WillSkip => Outcome::Skipped,
        ActionStatus::NotRun => Outcome::NotRun,
        ActionStatus::NoChange => Outcome::NoChange,
        ActionStatus::WillRun | ActionStatus::Executed => Outcome::Ran,
        _ => Outcome::Changed,
    }
}

/// The label of an outcome class.
pub open spec fn outcome_label(o: Outcome) -> Seq<char> {
    match o {
        Outcome::Failed => "failed"@,
        Outcome::Aborted => "aborted"@,
        Outcome::Skipped => "skipped"@,
        Outcome::NotRun => "not run"@,
        Outcome::NoChange => "no change"@,
        Outcome::Ran => "ran"@,
        Outcome::Changed => "changed"@,
    }
}

/// The severity rank of a status: higher is worse.
pub open spec fn rank_of(s: ActionStatus) -> u8 {
    match s {
        ActionStatus::NoChange => 0,
        ActionStatus::WillRun | ActionStatus::Executed => 1,
        ActionStatus::WillSkip => 1,
        ActionStatus::NotRun => 1,
        ActionStatus::Aborted => 4,
        ActionStatus::WillLink => 2,
        ActionStatus::WillCreate => 2,
        ActionStatus::WillInstall => 2,
        ActionStatus::WillClean => 2,
        ActionStatus::WillBackupLink => 3,
        ActionStatus::WillBackupRemove => 3,
        ActionStatus::WillFail => 4,
    }
}

impl ActionStatus {
    /// The terminal, user-facing label of the status.
    pub fn result_label(self) -> (r: &'static str)
        ensures
            r@ == outcome_label(outcome_of(self)),
    {
        match self {
            Self::WillFail => "failed",
            Self::Aborted => "aborted",
            Self::WillSkip => "skipped",
            Self::NotRun => "not run",
            Self::NoChange => "no change",
            Self::WillRun | Self::Executed => "ran",
            Self::WillInstall
            | Self::WillCreate
            | Self::WillLink
            | Self::WillBackupLink
            | Self::WillClean
            | Self::WillBackupRemove => "changed",
        }
    }

    /// The severity rank used to order statuses.
    pub fn rank(self) -> (r: u8)
        ensures
            r == rank_of(self),
    {
        match self {
            ActionStatus::NoChange => 0,
            ActionStatus::WillRun | ActionStatus::Executed => 1,
            ActionStatus::WillSkip => 1,
            ActionStatus::NotRun => 1,
            ActionStatus::Aborted => 4,
            ActionStatus::WillLink => 2,
            ActionStatus::WillCreate => 2,
            ActionStatus::WillInstall => 2,
            ActionStatus::WillClean => 2,
            ActionStatus::WillBackupLink => 3,
            ActionStatus::WillBackupRemove => 3,
            ActionStatus::WillFail => 4,
        }
    }

    /// `self` is strictly worse than `other`, by `rank`.
    pub fn worse_than(self, other: ActionStatus) -> (r: bool)
        ensures
            r == (rank_of(self) > rank_of(other)),
    {
        self.rank() > other.rank()
    }
}

/// The label of a run status.
pub open spec fn run_status_label(s: RunStatus) -> Seq<char> {
    match s {
        RunStatus::Running => "running"@,
        RunStatus::Success => "success"@,
        RunStatus::Failed => "failed"@,
        RunStatus::Aborted => "aborted"@,
    }
}

impl RunStatus {
    /// The user-facing label of the run status.
    pub fn result_label(self) -> (r: &'static str)
        ensures
            r@ == run_status_label(self),
    {
        match self {
            Self::Running => "running",
            Self::Success => "success",
            Self::Failed => "failed",
            Self::Aborted => "aborted",
        }
    }
}

/// The statuses a run item contributes to its summary: those of its actions,
/// or its own status when it records no actions (older history).
pub open spec fn item_statuses(item: RunItem) -> Seq<ActionStatus> {
    if item.actions@.len() == 0 {
        seq![item.status]
    } else {
        Seq::new(item.actions@.len(), |i: int| item.actions@[i].status)
    }
}

/// The statuses of the first `n` items of a run, in order.
pub open spec fn statuses_upto(items: Seq<RunItem>, n: int) -> Seq<ActionStatus>
    decreases n,
{
    if n <= 0 {
        seq![]
    } else {
        statuses_upto(items, n - 1) + item_statuses(items[n - 1])
    }
}

/// All statuses a run contributes to its summary.
pub open spec fn run_statuses(run: Run) -> Seq<ActionStatus> {
    statuses_upto(run.items@, run.items@.len() as int)
}

/// The number of statuses of `s` with outcome `o`.
pub open spec fn count_outcome(s: Seq<ActionStatus>, o: Outcome) -> nat
    decreases s.len(),
{
    if s.len() == 0 {
        0
    } else {
        count_outcome(s.drop_last(), o) + if outcome_of(s.last()) == o {
            1nat
        } else {
            0nat
        }
    }
}

/// The count a summary keeps for an outcome.
pub open spec fn summary_count(s: RunSummary, o: Outcome) -> nat {
    match o {
        Outcome::Ran => s.ran as nat,
        Outcome::Changed => s.changed as nat,
        Outcome::NoChange => s.no_change as nat,
        Outcome::Failed => s.failed as nat,
        Outcome::Aborted => s.aborted as nat,
        Outcome::Skipped => s.skipped as nat,
        Outcome::NotRun => s.not_run as nat,
    }
}

/// The sum of all counts of a summary.
pub open spec fn summary_total(s: RunSummary) -> nat {
    (s.ran + s.changed + s.no_change + s.failed + s.aborted + s.skipped + s.not_run) as nat
}

/// `s` counts the outcomes of exactly the statuses `st`.
pub open spec fn tallies(s: RunSummary, st: Seq<ActionStatus>) -> bool {
    forall|o: Outcome| #[trigger] summary_count(s, o) == count_outcome(st, o)
}

proof fn lemma_count_step(s: Seq<ActionStatus>, x: ActionStatus, o: Outcome)
    ensures
        count_outcome(s.push(x), o) == count_outcome(s, o) + if outcome_of(x) == o {
            1nat
        } else {
            0nat
        },
{
    assert(s.push(x).drop_last() =~= s);
}

proof fn lemma_count_total(s: Seq<ActionStatus>)
    ensures
        count_outcome(s, Outcome::Ran) + count_outcome(s, Outcome::Changed) + count_outcome(
            s,
            Outcome::NoChange,
        ) + count_outcome(s, Outcome::Failed) + count_outcome(s, Outcome::Aborted)
            + count_outcome(s, Outcome::Skipped) + count_outcome(s, Outcome::NotRun) == s.len(),
    decreases s.len(),
{
    if s.len() > 0 {
        lemma_count_total(s.drop_last());
    }
}

/// Every status of a run is counted under exactly one outcome, so the counts
/// of a summary that tallies a run add up to the number of its statuses.
pub proof fn lemma_summary_total(s: RunSummary, st: Seq<ActionStatus>)
    requires
        tallies(s, st),
    ensures
        summary_total(s) == st.len(),
{
    lemma_count_total(st);
    assert(summary_count(s, Outcome::Ran) == count_outcome(st, Outcome::Ran));
    assert(summary_count(s, Outcome::Changed) == count_outcome(st, Outcome::Changed));
    assert(summary_count(s, Outcome::NoChange) == count_outcome(st, Outcome::NoChange));
    assert(summary_count(s, Outcome::Failed) == count_outcome(st, Outcome::Failed));
    assert(summary_count(s, Outcome::Aborted) == count_outcome(st, Outcome::Aborted));
    assert(summary_count(s, Outcome::Skipped) == count_outcome(st, Outcome::Skipped));
    assert(summary_count(s, Outcome::NotRun) == count_outcome(st, Outcome::NotRun));
}

impl RunSummary {
    /// A summary with all counts zero.
    pub fn zero() -> (r: RunSummary)
        ensures
            tallies(r, seq![]),
    {
        RunSummary { ran: 0, changed: 0, no_change: 0, failed: 0, aborted: 0, skipped: 0, not_run: 0 }
    }

    /// Counts one more status.
    pub fn add(&mut self, status: ActionStatus)
        requires
            summary_total(*old(self)) < usize::MAX,
        ensures
            forall|o: Outcome| #[trigger] summary_count(*final(self), o) == summary_count(*old(self), o)
                + if outcome_of(status) == o { 1nat } else { 0nat },
            summary_total(*final(self)) == summary_total(*old(self)) + 1,
    {
        match status {
            ActionStatus::WillFail => self.failed = self.failed + 1,
            ActionStatus::Aborted => self.aborted = self.aborted + 1,
            ActionStatus::WillSkip => self.skipped = self.skipped + 1,
            ActionStatus::NotRun => self.not_run = self.not_run + 1,
            ActionStatus::NoChange => self.no_change = self.no_change + 1,
            ActionStatus::WillRun | ActionStatus::Executed => self.ran = self.ran + 1,
            ActionStatus::WillInstall
            | ActionStatus::WillCreate
            | ActionStatus::WillLink
            | ActionStatus::WillBackupLink
            | ActionStatus::WillClean
            | ActionStatus::WillBackupRemove => self.changed = self.changed + 1,
        }
    }

    /// The summary of a run: each action's status, or the item's own status
    /// for items that record no actions.
    pub fn from_run(run: &Run) -> (r: RunSummary)
        requires
            run_statuses(*run).len() < usize::MAX,
        ensures
            tallies(r, run_statuses(*run)),
    {
        let mut summary = RunSummary::zero();
        let mut i: usize = 0;
        proof {
            lemma_summary_total(summary, seq![]);
        }
        while i < run.items.len()
            invariant
                i <= run.items.len(),
                tallies(summary, statuses_upto(run.items@, i as int)),
                summary_total(summary) == statuses_upto(run.items@, i as int).len(),
                run_statuses(*run).len() < usize::MAX,
                run_statuses(*run) == statuses_upto(run.items@, run.items@.len() as int),
            decreases run.items.len() - i,
        {
            proof {
                lemma_statuses_prefix(run.items@, i as int + 1, run.items@.len() as int);
            }
            let item = &run.items[i];
            let ghost before = statuses_upto(run.items@, i as int);
            if item.actions.len() == 0 {
                summary.add(item.status);
                proof {
                    assert(item_statuses(*item) =~= seq![item.status]);
                    assert(before + seq![item.status] =~= before.push(item.status));
                    assert forall|o: Outcome| #[trigger] summary_count(summary, o) == count_outcome(
                        statuses_upto(run.items@, i + 1),
                        o,
                    ) by {
                        lemma_count_step(before, item.status, o);
                    }
                }
            } else {
                let mut j: usize = 0;
                while j < item.actions.len()
                    invariant
                        j <= item.actions.len(),
                        i < run.items.len(),
                        item == &run.items[i as int],
                        item.actions.len() > 0,
                        tallies(summary, before + item_statuses(*item).take(j as int)),
                        summary_total(summary) == before.len() + j,
                        before.len() + item_statuses(*item).len() <= run_statuses(*run).len(),
                        run_statuses(*run).len() < usize::MAX,
                    decreases item.actions.len() - j,
                {
                    let ghost prev = before + item_statuses(*item).take(j as int);
                    summary.add(item.actions[j].status);
                    proof {
                        let x = item.actions@[j as int].status;
                        assert(before + item_statuses(*item).take(j + 1) =~= prev.push(x));
                        assert forall|o: Outcome| #[trigger] summary_count(summary, o)
                            == count_outcome(before + item_statuses(*item).take(j + 1), o) by {
                            lemma_count_step(prev, x, o);
                        }
                    }
                    j += 1;
                }
                proof {
                    assert(item_statuses(*item).take(j as int) =~= item_statuses(*item));
                }
            }
            i += 1;
        }
        summary
    }

    /// The one-line rendering of the summary.
    pub fn display(self) -> (r: String)
        ensures
            r@ == summary_text(self),
    {
        let mut s = string_of(decimal_chars(self.ran as u64).as_slice());
        s.append(" ran, ");
        s.append(string_of(decimal_chars(self.changed as u64).as_slice()).as_str());
        s.append(" changed, ");
        s.append(string_of(decimal_chars(self.no_change as u64).as_slice()).as_str());
        s.append(" no change, ");
        s.append(string_of(decimal_chars(self.failed as u64).as_slice()).as_str());
        s.append(" failed");
        if self.aborted > 0 {
            s.append(", ");
            s.append(string_of(decimal_chars(self.aborted as u64).as_slice()).as_str());
            s.append(" aborted");
        }
        if self.skipped > 0 {
            s.append(", ");
            s.append(string_of(decimal_chars(self.skipped as u64).as_slice()).as_str());
            s.append(" skipped");
        }
        if self.not_run > 0 {
            s.append(", ");
            s.append(string_of(decimal_chars(self.not_run as u64).as_slice()).as_str());
            s.append(" not run");
        }
        s
    }
}

/// The text of `RunSummary::display`: the four main counts always, the
/// aborted, skipped and not-run counts only when nonzero.
pub open spec fn summary_text(s: RunSummary) -> Seq<char> {
    let main = decimal(s.ran as nat) + " ran, "@ + decimal(s.changed as nat) + " changed, "@
        + decimal(s.no_change as nat) + " no change, "@ + decimal(s.failed as nat) + " failed"@;
    let a = if s.aborted > 0 {
        main + ", "@ + decimal(s.aborted as nat) + " aborted"@
    } else {
        main
    };
    let b = if s.skipped > 0 {
        a + ", "@ + decimal(s.skipped as nat) + " skipped"@
    } else {
        a
    };
    if s.not_run > 0 {
        b + ", "@ + decimal(s.not_run as nat) + " not run"@
    } else {
        b
    }
}

proof fn lemma_statuses_prefix(items: Seq<RunItem>, i: int, n: int)
    requires
        0 <= i <= n <= items.len(),
    ensures
        statuses_upto(items, i).len() <= statuses_upto(items, n).len(),
    decreases n - i,
{
    if i < n {
        lemma_statuses_prefix(items, i, n - 1);
    }
}

} // verus!
