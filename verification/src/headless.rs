//! The non-interactive runner's reports: run details and the message when
//! a run's history could not be saved.

use vstd::prelude::*;
use crate::model::{
    outcome_label, outcome_of, run_status_label, run_statuses, summary_text, tallies, ActionStatus,
    Run, RunItem, RunStatus, RunSummary,
};
use crate::width::repeat;
use crate::text::opt_string_view;

verus! {

/// One row of a run's details: a step and what it came to.
#[derive(Debug)]
pub struct RunDetailRow {
    pub name: String,
    pub status: &'static str,
    pub error: Option<String>,
}

/// The rows of one item: one per action, named `<item> / <action>`; or the
/// item itself when it records no actions (older history).
pub open spec fn item_rows(item: RunItem) -> Seq<(Seq<char>, Seq<char>, Option<Seq<char>>)> {
    if item.actions@.len() == 0 {
        seq![(item.name@, outcome_label(outcome_of(item.status)), opt_string_view(item.error))]
    } else {
        Seq::new(
            item.actions@.len(),
            |k: int|
                (
                    item.name@ + " / "@ + item.actions@[k].name@,
                    outcome_label(outcome_of(item.actions@[k].status)),
                    opt_string_view(item.actions@[k].error),
                ),
        )
    }
}

/// The rows of the first `n` items.
pub open spec fn rows_upto(items: Seq<RunItem>, n: int) -> Seq<(Seq<char>, Seq<char>, Option<Seq<char>>)>
    decreases n,
{
    if n <= 0 {
        Seq::empty()
    } else {
        rows_upto(items, n - 1) + item_rows(items[n - 1])
    }
}

/// The values of detail rows.
pub open spec fn rows_view(rows: Seq<RunDetailRow>) -> Seq<(Seq<char>, Seq<char>, Option<Seq<char>>)> {
    Seq::new(rows.len(), |k: int| (rows[k].name@, rows[k].status@, opt_string_view(rows[k].error)))
}

/// The detail rows of a run.
pub fn run_detail_rows(run: &Run) -> (r: Vec<RunDetailRow>)
    ensures
        rows_view(r@) == rows_upto(run.items@, run.items@.len() as int),
{
    let mut rows: Vec<RunDetailRow> = Vec::new();
    let mut i: usize = 0;
    while i < run.items.len()
        invariant
            i <= run.items@.len(),
            rows_view(rows@) == rows_upto(run.items@, i as int),
        decreases run.items@.len() - i,
    {
        let item = &run.items[i];
        let ghost before = rows_view(rows@);
        if item.actions.len() == 0 {
            rows.push(
                RunDetailRow {
                    name: item.name.clone(),
                    status: item.status.result_label(),
                    error: crate::model::clone_opt(&item.error),
                },
            );
            proof {
                assert(rows_view(rows@) =~= before + item_rows(*item));
            }
        } else {
            let mut k: usize = 0;
            while k < item.actions.len()
                invariant
                    k <= item.actions@.len(),
                    item.actions@.len() > 0,
                    rows_view(rows@) == before + item_rows(*item).take(k as int),
                decreases item.actions@.len() - k,
            {
                let action = &item.actions[k];
                let mut name = item.name.clone();
                name.append(" / ");
                name.append(action.name.as_str());
                let ghost prev = rows_view(rows@);
                rows.push(
                    RunDetailRow {
                        name,
                        status: action.status.result_label(),
                        error: crate::model::clone_opt(&action.error),
                    },
                );
                proof {
                    assert(rows_view(rows@) =~= prev.push(item_rows(*item)[k as int]));
                    assert(item_rows(*item).take(k + 1) =~= item_rows(*item).take(k as int).push(item_rows(*item)[k as int]));
                }
                k += 1;
            }
            proof {
                assert(item_rows(*item).take(k as int) =~= item_rows(*item));
            }
        }
        i += 1;
    }
    rows
}

/// The message when a finished run's history could not be saved: the run,
/// its result, the error, and what to check.
pub open spec fn history_save_error_text(id: Seq<char>, status: Seq<char>, error: Seq<char>) -> Seq<char> {
    "run "@ + id + " finished with status "@ + status + ", but history was not saved: "@ + error
        + "; check disk space and dotman data directory permissions"@
}

/// The message when a finished run's history could not be saved.
pub fn history_save_error(run: &Run, error: &str) -> (r: String)
    ensures
        r@ == history_save_error_text(run.id@, run_status_label(run.status), error@),
{
    let mut s = String::from_str("run ");
    s.append(run.id.as_str());
    s.append(" finished with status ");
    s.append(run.status.result_label());
    s.append(", but history was not saved: ");
    s.append(error);
    s.append("; check disk space and dotman data directory permissions");
    s
}

/// The line printed when a run ends: its id and the counts of its outcomes.
pub fn summary_line(run: &Run) -> (r: String)
    requires
        run_statuses(*run).len() < usize::MAX,
    ensures
        exists|s: RunSummary|
            tallies(s, run_statuses(*run)) && r@ == "run "@ + run.id@ + " finished: "@
                + summary_text(s),
{
    let summary = RunSummary::from_run(run);
    let mut line = String::from_str("run ");
    line.append(run.id.as_str());
    line.append(" finished: ");
    line.append(summary.display().as_str());
    line
}

/// What a deployment reports once its run is saved: success only when the
/// run succeeded.
pub fn deploy_outcome(run: &Run) -> (r: Result<(), String>)
    ensures
        run.status == RunStatus::Success ==> r is Ok,
        run.status != RunStatus::Success ==> (r matches Err(e) && e@ == "run finished with status "@
            + run_status_label(run.status)),
{
    match run.status {
        RunStatus::Success => Ok(()),
        _ => {
            let mut e = String::from_str("run finished with status ");
            e.append(run.status.result_label());
            Err(e)
        },
    }
}

/// Text left-aligned in a column of `width` characters.
pub open spec fn padded(s: Seq<char>, width: nat) -> Seq<char> {
    if s.len() < width {
        s + repeat(' ', (width - s.len()) as nat)
    } else {
        s
    }
}

fn append_padded(out: &mut String, s: &str, width: usize)
    ensures
        final(out)@ == old(out)@ + padded(s@, width as nat),
{
    out.append(s);
    let n = s.unicode_len();
    if n < width {
        let mut i: usize = n;
        while i < width
            invariant
                n <= i <= width,
                n == s@.len(),
                out@ == old(out)@ + s@ + repeat(' ', (i - n) as nat),
            decreases width - i,
        {
            crate::text::push_char(out, ' ');
            i += 1;
            assert(out@ =~= old(out)@ + s@ + repeat(' ', (i - n) as nat));
        }
    } else {
        assert(out@ =~= old(out)@ + padded(s@, width as nat));
    }
}

/// The history listing: a header and one row per run (id, mode, result,
/// start time), or a note when there are no runs.
pub open spec fn history_lines_spec(runs: Seq<Run>) -> Seq<Seq<char>> {
    if runs.len() == 0 {
        seq!["no runs yet"@]
    } else {
        seq![
            padded("ID"@, 26) + "  "@ + padded("MODE"@, 10) + "  "@ + padded("STATUS"@, 8)
                + "  STARTED"@,
        ] + Seq::new(
            runs.len(),
            |i: int|
                padded(runs[i].id@, 26) + "  "@ + padded("deploy"@, 10) + "  "@ + padded(
                    run_status_label(runs[i].status),
                    8,
                ) + "  "@ + runs[i].started_at@,
        )
    }
}

/// The history listing, line by line.
pub fn history_lines(runs: &Vec<Run>) -> (r: Vec<String>)
    ensures
        crate::text::str_views(r@) == history_lines_spec(runs@),
{
    let mut lines: Vec<String> = Vec::new();
    if runs.len() == 0 {
        lines.push(String::from_str("no runs yet"));
        assert(crate::text::str_views(lines@) =~= history_lines_spec(runs@));
        return lines;
    }
    let mut header = String::new();
    append_padded(&mut header, "ID", 26);
    header.append("  ");
    append_padded(&mut header, "MODE", 10);
    header.append("  ");
    append_padded(&mut header, "STATUS", 8);
    header.append("  STARTED");
    lines.push(header);
    let mut i: usize = 0;
    while i < runs.len()
        invariant
            i <= runs@.len(),
            runs@.len() > 0,
            lines@.len() == i + 1,
            crate::text::str_views(lines@) == history_lines_spec(runs@).take(i + 1),
        decreases runs@.len() - i,
    {
        let run = &runs[i];
        let mut row = String::new();
        append_padded(&mut row, run.id.as_str(), 26);
        row.append("  ");
        append_padded(&mut row, "deploy", 10);
        row.append("  ");
        append_padded(&mut row, run.status.result_label(), 8);
        row.append("  ");
        row.append(run.started_at.as_str());
        let ghost before = lines@;
        lines.push(row);
        proof {
            let sp = history_lines_spec(runs@);
            assert forall|j: int| 0 <= j < i + 2 implies #[trigger] crate::text::str_views(lines@)[j]
                == sp.take(i + 2)[j] by {
                if j < i + 1 {
                    assert(lines@[j] == before[j]);
                    assert(crate::text::str_views(before)[j] == sp.take(i + 1)[j]);
                }
            }
            assert(crate::text::str_views(lines@) =~= sp.take(i + 2));
        }
        i += 1;
    }
    assert(history_lines_spec(runs@).take(runs@.len() + 1int) =~= history_lines_spec(runs@));
    lines
}

/// What a mode that needs no config does: list the history, or show one
/// run's details.
#[derive(Debug)]
pub enum NoConfigAction {
    History,
    Run(String),
}

/// The step for a mode run without a config: the history and a run's
/// details; any other mode needs a config and is refused.
pub fn run_no_config(mode: crate::cli::Mode) -> (r: Result<NoConfigAction, String>)
    ensures
        match mode {
            crate::cli::Mode::History => r matches Ok(NoConfigAction::History),
            crate::cli::Mode::Run(id) => r matches Ok(NoConfigAction::Run(i)) && i == id,
            crate::cli::Mode::Menu => r matches Err(e) && e@ == "mode Menu requires config"@,
            crate::cli::Mode::Deploy => r matches Err(e) && e@ == "mode Deploy requires config"@,
            crate::cli::Mode::Plan => r matches Err(e) && e@ == "mode Plan requires config"@,
        },
{
    match mode {
        crate::cli::Mode::History => Ok(NoConfigAction::History),
        crate::cli::Mode::Run(id) => Ok(NoConfigAction::Run(id)),
        crate::cli::Mode::Menu => Err(String::from_str("mode Menu requires config")),
        crate::cli::Mode::Deploy => Err(String::from_str("mode Deploy requires config")),
        crate::cli::Mode::Plan => Err(String::from_str("mode Plan requires config")),
    }
}

} // verus!
