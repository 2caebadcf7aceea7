//! What the demo's run screen and plan screen draw: each screen as a list of
//! styled lines at terminal positions, for a terminal layer to paint.

use vstd::prelude::*;
use crate::demo::{
    DemoState, PlanRow, ReviewEntry, RowV, SeedItem, entry_visible, action_outcome, action_outcome_spec,
    result_counts_spec, sat_sub, layer_indices, layer_name, layer_rows, rows_upto, chunk_rows, rows_view,
    row_view, plan_columns, plan_columns_spec, grid_cell_width, grid_cell_width_spec, list_offset,
    list_offset_spec, selected_count_spec, selected_actions_spec,
};
use crate::text::{decimal, decimal_chars, string_of, str_eq, contains_seq, str_views};
use crate::width::{str_width_of, text_width, fit, fit_spec, repeat, push_repeat, capitalize, capitalize_spec};

verus! {

/// The colour a piece of text is drawn in; `Plain` keeps what is there.
#[derive(Clone, Copy, Debug, PartialEq, Eq, Structural)]
pub enum Tone {
    Plain,
    Fg,
    FgDim,
    Muted,
    Divider,
    Success,
    Warning,
    Accent,
    Primary,
}

/// A piece of text in one tone, bold or not.
#[derive(Debug)]
pub struct Span {
    pub text: String,
    pub tone: Tone,
    pub bold: bool,
}

/// A line drawn from column `x` of row `y`: its pieces one after another,
/// cut at `limit` columns where there is one, on the highlighted background
/// when `active`.
#[derive(Debug)]
pub struct DrawLine {
    pub x: u16,
    pub y: u16,
    pub limit: Option<usize>,
    pub active: bool,
    pub spans: Vec<Span>,
}

/// A span as a value.
pub struct SpanV {
    pub text: Seq<char>,
    pub tone: Tone,
    pub bold: bool,
}

/// A drawn line as a value.
pub struct LineV {
    pub x: nat,
    pub y: nat,
    pub limit: Option<nat>,
    pub active: bool,
    pub spans: Seq<SpanV>,
}

/// The value of a span.
pub open spec fn span_v(s: Span) -> SpanV {
    SpanV { text: s.text@, tone: s.tone, bold: s.bold }
}

/// The value of a drawn line.
pub open spec fn line_v(l: DrawLine) -> LineV {
    LineV {
        x: l.x as nat,
        y: l.y as nat,
        limit: match l.limit {
            Some(w) => Some(w as nat),
            None => None,
        },
        active: l.active,
        spans: l.spans@.map_values(|s: Span| span_v(s)),
    }
}

/// The values of drawn lines.
pub open spec fn lines_v(s: Seq<DrawLine>) -> Seq<LineV> {
    s.map_values(|l: DrawLine| line_v(l))
}

/// A span value.
pub open spec fn sv(text: Seq<char>, tone: Tone, bold: bool) -> SpanV {
    SpanV { text, tone, bold }
}

/// A line of a single span.
pub open spec fn one(x: nat, y: nat, limit: Option<nat>, active: bool, s: SpanV) -> LineV {
    LineV { x, y, limit, active, spans: seq![s] }
}

/// A line written only when its row is on the screen.
pub open spec fn on_screen(l: LineV, height: nat) -> Seq<LineV> {
    if l.y < height {
        seq![l]
    } else {
        Seq::empty()
    }
}

fn mk_span(text: String, tone: Tone, bold: bool) -> (r: Span)
    ensures
        span_v(r) == sv(text@, tone, bold),
{
    Span { text, tone, bold }
}

fn mk_line(x: u16, y: u16, limit: Option<usize>, active: bool, spans: Vec<Span>) -> (r: DrawLine)
    ensures
        line_v(r) == (LineV {
            x: x as nat,
            y: y as nat,
            limit: match limit {
                Some(w) => Some(w as nat),
                None => None,
            },
            active,
            spans: spans@.map_values(|s: Span| span_v(s)),
        }),
{
    DrawLine { x, y, limit, active, spans }
}

fn mk_one(x: u16, y: u16, limit: Option<usize>, active: bool, text: String, tone: Tone, bold: bool) -> (r: DrawLine)
    ensures
        line_v(r) == one(
            x as nat,
            y as nat,
            match limit {
                Some(w) => Some(w as nat),
                None => None,
            },
            active,
            sv(text@, tone, bold),
        ),
{
    let mut spans: Vec<Span> = Vec::new();
    spans.push(mk_span(text, tone, bold));
    let r = mk_line(x, y, limit, active, spans);
    assert(line_v(r).spans =~= seq![sv(text@, tone, bold)]);
    r
}

fn dec_string(n: usize) -> (r: String)
    ensures
        r@ == decimal(n as nat),
{
    string_of(decimal_chars(n as u64).as_slice())
}

fn repeat_string(c: char, n: usize) -> (r: String)
    ensures
        r@ == repeat(c, n as nat),
{
    let mut s = String::new();
    push_repeat(&mut s, c, n);
    assert(s@ =~= repeat(c, n as nat));
    s
}

// ---------------------------------------------------------------------------
// The run screen.

/// The review entries the run works through: those whose item is selected.
pub open spec fn shown_entries(items: Seq<SeedItem>, entries: Seq<ReviewEntry>) -> Seq<ReviewEntry>
    decreases entries.len(),
{
    if entries.len() == 0 {
        Seq::empty()
    } else if entry_visible(items, entries.last()) {
        shown_entries(items, entries.drop_last()).push(entries.last())
    } else {
        shown_entries(items, entries.drop_last())
    }
}

proof fn lemma_shown_visible(items: Seq<SeedItem>, entries: Seq<ReviewEntry>)
    ensures
        shown_entries(items, entries).len() <= entries.len(),
        forall|k: int|
            0 <= k < shown_entries(items, entries).len() ==> entry_visible(items, #[trigger] shown_entries(items, entries)[k]),
    decreases entries.len(),
{
    if entries.len() > 0 {
        lemma_shown_visible(items, entries.drop_last());
    }
}

/// A product capped at the largest `usize`.
pub open spec fn sat_mul(a: nat, b: nat) -> nat {
    if a * b > usize::MAX {
        usize::MAX as nat
    } else {
        a * b
    }
}

/// How many of the run's actions are done: all once it finished unaborted,
/// else a sixth of them for each step of the run.
pub open spec fn run_completed(s: DemoState, finished: bool) -> nat {
    let total = shown_entries(s.seed.items@, s.seed.review_entries@).len();
    if finished && !s.run_aborted {
        total
    } else {
        sat_mul(total, s.run_step as nat) / 6
    }
}

/// The filled tenths of the progress bar (all of it for an empty run).
pub open spec fn run_filled(s: DemoState, finished: bool) -> nat {
    let total = shown_entries(s.seed.items@, s.seed.review_entries@).len();
    if total == 0 {
        10
    } else {
        sat_mul(run_completed(s, finished), 10) / total
    }
}

/// The run's state word.
pub open spec fn run_status_word(s: DemoState, finished: bool) -> Seq<char> {
    if s.run_aborted {
        "Aborted"@
    } else if s.run_aborting {
        "Stopping"@
    } else if finished {
        "Success"@
    } else {
        "Running"@
    }
}

/// The right side of the run header: state, count and progress bar.
pub open spec fn run_header_right(s: DemoState, finished: bool) -> Seq<char> {
    let total = shown_entries(s.seed.items@, s.seed.review_entries@).len();
    let filled = run_filled(s, finished);
    run_status_word(s, finished) + "  "@ + decimal(run_completed(s, finished)) + "/"@ + decimal(total)
        + "  "@ + repeat('\u{2588}', filled) + repeat('\u{2591}', (10 - filled) as nat)
}

/// The run header: its title, a divider filling the row, and the state in
/// the tone of how the run stands.
pub open spec fn run_header_line(s: DemoState, finished: bool) -> LineV {
    let width = sat_sub(s.width as int, 2);
    let right = run_header_right(s, finished);
    let tone = if s.run_aborted || s.run_aborting {
        Tone::Warning
    } else if finished {
        Tone::Success
    } else {
        Tone::Accent
    };
    LineV {
        x: 1,
        y: 1,
        limit: Some(width),
        active: false,
        spans: seq![
            sv("\u{F04B}  Run  "@, Tone::FgDim, true),
            sv(repeat('\u{2500}', sat_sub(width as int, str_width_of("\u{F04B}  Run  "@) + str_width_of(right))), Tone::Divider, false),
            sv(right, tone, true),
        ],
    }
}

/// The review entries a run works through.
pub open spec fn run_entries(s: DemoState) -> Seq<ReviewEntry> {
    shown_entries(s.seed.items@, s.seed.review_entries@)
}

/// The text of the run's "current" line.
pub open spec fn run_current_text(s: DemoState, finished: bool) -> Seq<char> {
    let e = run_entries(s);
    let c = run_completed(s, finished);
    if s.run_aborted {
        "  current  run aborted after "@ + decimal(c) + "/"@ + decimal(e.len()) + " actions"@
    } else if finished {
        let counts = result_counts_spec(e, c);
        "  current  "@ + decimal(counts.0) + " ran, "@ + decimal(counts.1) + " changed, "@ + decimal(counts.2)
            + " no change, 0 failed"@
    } else if c < e.len() {
        "  current  "@ + s.seed.items@[e[c as int].item_index as int].name@ + " / "@ + e[c as int].detail@
    } else {
        "  current  finalizing run"@
    }
}

/// The "current" line, fitted to the width, on the second row.
pub open spec fn run_current_lines(s: DemoState, finished: bool) -> Seq<LineV> {
    on_screen(
        one(1, 2, None, false, sv(fit_spec(run_current_text(s, finished), sat_sub(s.width as int, 2)), Tone::Muted, false)),
        s.height as nat,
    )
}

/// The smaller of two numbers.
pub open spec fn min_nat(a: nat, b: nat) -> nat {
    if a <= b {
        a
    } else {
        b
    }
}

/// The rows the run list takes.
pub open spec fn run_body_height(s: DemoState) -> nat {
    sat_sub(s.height as int, 15)
}

/// The first entry in view: the last screenful once finished, else the
/// done count kept mid-list, moved back by the scroll.
pub open spec fn run_offset(s: DemoState, finished: bool) -> nat {
    let total = run_entries(s).len();
    let bh = run_body_height(s);
    let follow = if finished {
        sat_sub(total as int, bh as int)
    } else {
        min_nat(sat_sub(run_completed(s, finished) as int, (bh / 2) as int), sat_sub(total as int, bh as int))
    };
    sat_sub(follow as int, s.run_scroll as int)
}

/// The number of entries in view.
pub open spec fn run_row_count(s: DemoState, finished: bool) -> nat {
    min_nat(run_body_height(s), sat_sub(run_entries(s).len() as int, run_offset(s, finished) as int))
}

/// The spinner frame for a step.
pub open spec fn spinner_char(k: nat) -> char {
    if k == 0 {
        '\u{280B}'
    } else if k == 1 {
        '\u{2819}'
    } else if k == 2 {
        '\u{2839}'
    } else if k == 3 {
        '\u{2838}'
    } else if k == 4 {
        '\u{283C}'
    } else {
        '\u{2834}'
    }
}

/// The marker, tone and outcome of the entry at `index`: done entries show
/// their outcome, the entry where an aborted run stopped shows it aborted,
/// the next entry of a running run spins, the rest wait.
pub open spec fn run_row_mark(s: DemoState, finished: bool, index: nat) -> (Seq<char>, Tone, Seq<char>) {
    let c = run_completed(s, finished);
    if (!s.run_aborted && finished) || index < c {
        let o = action_outcome_spec(run_entries(s)[index as int].kind@, index);
        (seq!['\u{F058}'], if o == "no change"@ { Tone::Muted } else { Tone::Success }, o)
    } else if s.run_aborted && index == c {
        (seq!['\u{F04D}'], Tone::Warning, "aborted"@)
    } else if !finished && index == c {
        (seq![spinner_char((s.run_step % 6) as nat)], Tone::Accent, "running"@)
    } else {
        (seq!['\u{F04C}'], Tone::FgDim, "pending"@)
    }
}

/// The `v`-th row of the run list: marker, kind, item and detail on the
/// left, the outcome on the right.
pub open spec fn run_row_line(s: DemoState, finished: bool, v: nat) -> LineV {
    let index = run_offset(s, finished) + v;
    let e = run_entries(s)[index as int];
    let m = run_row_mark(s, finished, index);
    let width = sat_sub(s.width as int, 2);
    let label = m.0 + " "@ + e.kind_icon@ + " "@ + s.seed.items@[e.item_index as int].name@ + " / "@ + e.detail@;
    let gap = sat_sub(width as int, str_width_of(label) + str_width_of(m.2));
    LineV {
        x: 1,
        y: 3 + v,
        limit: Some(width),
        active: false,
        spans: seq![
            sv(label, m.1, false),
            sv(repeat(' ', if gap == 0 { 1 } else { gap }), Tone::Plain, false),
            sv(m.2, m.1, false),
        ],
    }
}

/// The rows of the run list in view.
pub open spec fn run_rows(s: DemoState, finished: bool) -> Seq<LineV> {
    Seq::new(run_row_count(s, finished), |v: int| run_row_line(s, finished, v as nat))
}

/// The log's activity lines, in order.
pub open spec fn activity(k: nat) -> Seq<char> {
    if k == 0 {
        "deploy started"@
    } else if k == 1 {
        "  checking selected actions"@
    } else if k == 2 {
        "  resolving package state"@
    } else if k == 3 {
        "  linking portable configuration"@
    } else if k == 4 {
        "  creating required directories"@
    } else {
        "  running guarded shell steps"@
    }
}

/// The closing log line: that the run was aborted or completed.
pub open spec fn run_closing(s: DemoState, finished: bool) -> Seq<Seq<char>> {
    if s.run_aborted {
        seq!["run aborted"@]
    } else if finished {
        seq!["run completed successfully"@]
    } else {
        Seq::empty()
    }
}

/// The log: one activity line per step (all once finished unaborted), then
/// the closing line.
pub open spec fn log_messages(s: DemoState, finished: bool) -> Seq<Seq<char>> {
    let n = if finished && !s.run_aborted {
        6
    } else {
        min_nat(s.run_step as nat + 1, 6)
    };
    Seq::new(n, |k: int| activity(k as nat)) + run_closing(s, finished)
}

/// The log lines shown under the filter: none but a note for errors, the
/// last two for the current step, or, folded, the first line, a fold
/// marker and the closing line.
pub open spec fn log_shown(s: DemoState, finished: bool) -> Seq<Seq<char>> {
    let m = log_messages(s, finished);
    if s.run_filter == 2 {
        seq!["no errors in this simulated run"@]
    } else if s.run_filter == 1 {
        m.skip(sat_sub(m.len() as int, 2) as int)
    } else if s.run_folded && m.len() > 1 {
        seq![m[0], "  \u{25B8} activity (details folded)"@] + run_closing(s, finished)
    } else {
        m
    }
}

/// The name of the log filter.
pub open spec fn filter_word(f: u32) -> Seq<char> {
    if f == 1 {
        "current"@
    } else if f == 2 {
        "errors"@
    } else {
        "all"@
    }
}

/// The tone of a log line: completion in success, an abort as a warning.
pub open spec fn log_tone(msg: Seq<char>) -> Tone {
    if contains_seq(msg, "completed"@) {
        Tone::Success
    } else if contains_seq(msg, "aborted"@) {
        Tone::Warning
    } else {
        Tone::Fg
    }
}

/// The log panel's title.
pub open spec fn log_title(s: DemoState) -> Seq<char> {
    "\u{250C} log: follow \u{B7} "@ + filter_word(s.run_filter) + " "@
}

/// The log panel's row `row` (counting from 0): a shown line or an empty one.
pub open spec fn log_row(s: DemoState, finished: bool, row: nat) -> LineV {
    let shown = log_shown(s, finished);
    let msg = if row < shown.len() {
        shown[row as int]
    } else {
        Seq::<char>::empty()
    };
    one(
        1,
        sat_sub(s.height as int, 11) + row + 1,
        None,
        false,
        sv(seq!['\u{2502}'] + fit_spec(msg, sat_sub(sat_sub(s.width as int, 2) as int, 2)) + seq!['\u{2502}'], log_tone(msg), false),
    )
}

/// The first `n` log rows that fall on the screen.
pub open spec fn log_rows_upto(s: DemoState, finished: bool, n: nat) -> Seq<LineV>
    decreases n,
{
    if n == 0 {
        Seq::empty()
    } else {
        log_rows_upto(s, finished, (n - 1) as nat) + on_screen(log_row(s, finished, (n - 1) as nat), s.height as nat)
    }
}

/// The log panel: a titled box of eight rows, eleven rows from the bottom.
pub open spec fn log_lines(s: DemoState, finished: bool) -> Seq<LineV> {
    let top = sat_sub(s.height as int, 11);
    let w = sat_sub(s.width as int, 2);
    let t = log_title(s);
    on_screen(
        one(1, top, None, false, sv(t + repeat('\u{2500}', sat_sub(w as int, str_width_of(t) + 1)) + seq!['\u{2510}'], Tone::Divider, false)),
        s.height as nat,
    ) + log_rows_upto(s, finished, 8) + on_screen(
        one(1, top + 9, None, false, sv(seq!['\u{2514}'] + repeat('\u{2500}', sat_sub(w as int, 2)) + seq!['\u{2518}'], Tone::Divider, false)),
        s.height as nat,
    )
}

/// Key hints: each key in brackets, bold, then what it does.
pub open spec fn help_spans(parts: Seq<(Seq<char>, Seq<char>)>) -> Seq<SpanV>
    decreases parts.len(),
{
    if parts.len() == 0 {
        Seq::empty()
    } else {
        help_spans(parts.drop_last()) + seq![
            sv("["@ + parts.last().0 + "]"@, Tone::Muted, true),
            sv(parts.last().1, Tone::FgDim, false),
        ]
    }
}

/// The run screen's key hints; `q` aborts a running run, or says it is
/// stopping, and goes back from a finished one.
pub open spec fn run_help_parts(s: DemoState, finished: bool) -> Seq<(Seq<char>, Seq<char>)> {
    seq![
        ("\u{2191}\u{2193}"@, " Scroll  "@),
        ("Tab"@, " Filter  "@),
        ("Enter"@, " Fold  "@),
        if finished {
            ("q"@, " Back"@)
        } else if s.run_aborting {
            ("q"@, " Stopping"@)
        } else {
            ("q"@, " Abort"@)
        },
    ]
}

/// The key hints on the bottom row.
pub open spec fn run_help_line(s: DemoState, finished: bool) -> LineV {
    LineV {
        x: 1,
        y: sat_sub(s.height as int, 1),
        limit: Some(sat_sub(s.width as int, 2)),
        active: false,
        spans: help_spans(run_help_parts(s, finished)),
    }
}

/// The run screen, in drawing order: header, current action, the list in
/// view, the log panel and the key hints.
pub open spec fn run_screen_spec(s: DemoState, finished: bool) -> Seq<LineV> {
    seq![run_header_line(s, finished)] + run_current_lines(s, finished) + run_rows(s, finished) + log_lines(
        s,
        finished,
    ) + seq![run_help_line(s, finished)]
}

/// The positions of the run's entries among the review entries.
fn shown_positions(s: &DemoState) -> (r: Vec<usize>)
    ensures
        r@.len() == shown_entries(s.seed.items@, s.seed.review_entries@).len(),
        forall|k: int| 0 <= k < r@.len() ==> #[trigger] r@[k] < s.seed.review_entries@.len(),
        forall|k: int|
            0 <= k < r@.len() ==> s.seed.review_entries@[r@[k] as int] == #[trigger] shown_entries(
                s.seed.items@,
                s.seed.review_entries@,
            )[k],
{
    let items = &s.seed.items;
    let entries = &s.seed.review_entries;
    let mut r: Vec<usize> = Vec::new();
    let mut i: usize = 0;
    while i < entries.len()
        invariant
            i <= entries@.len(),
            r@.len() == shown_entries(items@, entries@.take(i as int)).len(),
            forall|k: int| 0 <= k < r@.len() ==> #[trigger] r@[k] < i,
            forall|k: int|
                0 <= k < r@.len() ==> entries@[r@[k] as int] == #[trigger] shown_entries(
                    items@,
                    entries@.take(i as int),
                )[k],
        decreases entries@.len() - i,
    {
        proof {
            assert(entries@.take(i + 1).drop_last() =~= entries@.take(i as int));
            assert(entries@.take(i + 1).last() == entries@[i as int]);
        }
        let ghost before = shown_entries(items@, entries@.take(i as int));
        let ghost after = shown_entries(items@, entries@.take(i + 1));
        let e = &entries[i];
        if e.item_index < items.len() && items[e.item_index].selected {
            r.push(i);
            assert(after == before.push(entries@[i as int]));
        } else {
            assert(after == before);
        }
        i += 1;
        assert forall|k: int| 0 <= k < r@.len() implies entries@[r@[k] as int]
            == #[trigger] shown_entries(items@, entries@.take(i as int))[k] by {
            assert(shown_entries(items@, entries@.take(i as int)) == after);
            if k < before.len() {
                assert(after[k] == before[k]);
            }
        }
    }
    proof {
        assert(entries@.take(entries@.len() as int) =~= entries@);
        assert forall|k: int| 0 <= k < r@.len() implies entries@[r@[k] as int]
            == #[trigger] shown_entries(items@, entries@)[k] by {
            assert(shown_entries(items@, entries@.take(i as int))[k] == shown_entries(items@, entries@)[k]);
        }
    }
    r
}

/// The run's progress: actions done, all actions, filled tenths of the bar.
fn run_progress(s: &DemoState, finished: bool, total: usize) -> (r: (usize, usize))
    requires
        total == shown_entries(s.seed.items@, s.seed.review_entries@).len(),
    ensures
        r.0 == run_completed(*s, finished),
        r.1 == run_filled(*s, finished),
{
    let completed = if finished && !s.run_aborted {
        total
    } else {
        let m = match total.checked_mul(s.run_step as usize) {
            Some(v) => v,
            None => usize::MAX,
        };
        m / 6
    };
    let filled = if total == 0 {
        10
    } else {
        let m = match completed.checked_mul(10) {
            Some(v) => v,
            None => usize::MAX,
        };
        m / total
    };
    (completed, filled)
}

fn run_header(s: &DemoState, finished: bool, completed: usize, total: usize, filled: usize) -> (r: DrawLine)
    requires
        total == shown_entries(s.seed.items@, s.seed.review_entries@).len(),
        completed == run_completed(*s, finished),
        filled == run_filled(*s, finished),
        filled <= 10,
    ensures
        line_v(r) == run_header_line(*s, finished),
{
    proof {
        reveal_strlit("Aborted");
        reveal_strlit("Stopping");
        reveal_strlit("Success");
        reveal_strlit("Running");
    }
    let width = s.width.saturating_sub(2) as usize;
    let mut right = String::from_str(
        if s.run_aborted {
            "Aborted"
        } else if s.run_aborting {
            "Stopping"
        } else if finished {
            "Success"
        } else {
            "Running"
        },
    );
    right.append("  ");
    right.append(dec_string(completed).as_str());
    right.append("/");
    right.append(dec_string(total).as_str());
    right.append("  ");
    push_repeat(&mut right, '\u{2588}', filled);
    push_repeat(&mut right, '\u{2591}', 10 - filled);
    assert(right@ =~= run_header_right(*s, finished));
    let prefix_width = text_width("\u{F04B}  Run  ");
    let right_width = text_width(right.as_str());
    let divider = width.saturating_sub(prefix_width.saturating_add(right_width));
    let tone = if s.run_aborted || s.run_aborting {
        Tone::Warning
    } else if finished {
        Tone::Success
    } else {
        Tone::Accent
    };
    let mut spans: Vec<Span> = Vec::new();
    spans.push(mk_span(String::from_str("\u{F04B}  Run  "), Tone::FgDim, true));
    spans.push(mk_span(repeat_string('\u{2500}', divider), Tone::Divider, false));
    spans.push(mk_span(right, tone, true));
    let r = mk_line(1, 1, Some(width), false, spans);
    assert(line_v(r).spans =~= run_header_line(*s, finished).spans);
    r
}

fn push_line(out: &mut Vec<DrawLine>, l: DrawLine)
    ensures
        lines_v(final(out)@) == lines_v(old(out)@).push(line_v(l)),
{
    let ghost l_v = line_v(l);
    out.push(l);
    assert(lines_v(out@) =~= lines_v(old(out)@).push(l_v));
}

/// The ran, changed and unchanged counts over the run's first `completed`
/// entries.
fn shown_counts(s: &DemoState, pos: &Vec<usize>, completed: usize) -> (r: (usize, usize, usize))
    requires
        pos@.len() == run_entries(*s).len(),
        forall|k: int| 0 <= k < pos@.len() ==> #[trigger] pos@[k] < s.seed.review_entries@.len(),
        forall|k: int|
            0 <= k < pos@.len() ==> s.seed.review_entries@[pos@[k] as int] == #[trigger] run_entries(*s)[k],
    ensures
        (r.0 as nat, r.1 as nat, r.2 as nat) == result_counts_spec(run_entries(*s), completed as nat),
{
    let ghost e = run_entries(*s);
    let n = if completed < pos.len() {
        completed
    } else {
        pos.len()
    };
    proof {
        reveal_strlit("ran");
        reveal_strlit("no change");
        reveal_strlit("changed");
        if completed > e.len() && e.len() > 0 {
            assert(result_counts_spec(e, completed as nat) == result_counts_spec(e, e.len()));
        }
    }
    let mut ran: usize = 0;
    let mut changed: usize = 0;
    let mut unchanged: usize = 0;
    let mut i: usize = 0;
    while i < n
        invariant
            i <= n <= pos@.len(),
            pos@.len() == e.len(),
            e == run_entries(*s),
            forall|k: int| 0 <= k < pos@.len() ==> #[trigger] pos@[k] < s.seed.review_entries@.len(),
            forall|k: int| 0 <= k < pos@.len() ==> s.seed.review_entries@[pos@[k] as int] == #[trigger] e[k],
            (ran as nat, changed as nat, unchanged as nat) == result_counts_spec(e, i as nat),
            ran + changed + unchanged == i,
        decreases n - i,
    {
        assert(s.seed.review_entries@[pos@[i as int] as int] == e[i as int]);
        let o = action_outcome(&s.seed.review_entries[pos[i]], i);
        if str_eq(o, "ran") {
            ran = ran + 1;
        } else if str_eq(o, "no change") {
            unchanged = unchanged + 1;
        } else {
            changed = changed + 1;
        }
        i += 1;
    }
    (ran, changed, unchanged)
}

fn push_run_current(
    out: &mut Vec<DrawLine>,
    s: &DemoState,
    finished: bool,
    pos: &Vec<usize>,
    completed: usize,
)
    requires
        pos@.len() == run_entries(*s).len(),
        forall|k: int| 0 <= k < pos@.len() ==> #[trigger] pos@[k] < s.seed.review_entries@.len(),
        forall|k: int|
            0 <= k < pos@.len() ==> s.seed.review_entries@[pos@[k] as int] == #[trigger] run_entries(*s)[k],
        completed == run_completed(*s, finished),
    ensures
        lines_v(final(out)@) == lines_v(old(out)@) + run_current_lines(*s, finished),
{
    proof {
        lemma_shown_visible(s.seed.items@, s.seed.review_entries@);
    }
    let total = pos.len();
    let mut text = String::from_str("  current  ");
    if s.run_aborted {
        text.append("run aborted after ");
        text.append(dec_string(completed).as_str());
        text.append("/");
        text.append(dec_string(total).as_str());
        text.append(" actions");
        proof {
            reveal_strlit("  current  ");
            reveal_strlit("run aborted after ");
            reveal_strlit("  current  run aborted after ");
        }
        assert(text@ =~= run_current_text(*s, finished));
    } else if finished {
        let (ran, changed, unchanged) = shown_counts(s, pos, completed);
        text.append(dec_string(ran).as_str());
        text.append(" ran, ");
        text.append(dec_string(changed).as_str());
        text.append(" changed, ");
        text.append(dec_string(unchanged).as_str());
        text.append(" no change, 0 failed");
        assert(text@ =~= run_current_text(*s, finished));
    } else if completed < total {
        let e = &s.seed.review_entries[pos[completed]];
        assert(entry_visible(s.seed.items@, run_entries(*s)[completed as int]));
        text.append(s.seed.items[e.item_index].name.as_str());
        text.append(" / ");
        text.append(e.detail.as_str());
        assert(text@ =~= run_current_text(*s, finished));
    } else {
        text.append("finalizing run");
        proof {
            reveal_strlit("  current  ");
            reveal_strlit("finalizing run");
            reveal_strlit("  current  finalizing run");
        }
        assert(text@ =~= run_current_text(*s, finished));
    }
    if 2 < s.height {
        let width = s.width.saturating_sub(2) as usize;
        push_line(out, mk_one(1, 2, None, false, fit(text.as_str(), width), Tone::Muted, false));
        assert(lines_v(out@) =~= lines_v(old(out)@) + run_current_lines(*s, finished));
    } else {
        assert(lines_v(out@) =~= lines_v(old(out)@) + run_current_lines(*s, finished));
    }
}

fn spinner_at(k: u32) -> (r: char)
    requires
        k < 6,
    ensures
        r == spinner_char(k as nat),
{
    if k == 0 {
        '\u{280B}'
    } else if k == 1 {
        '\u{2819}'
    } else if k == 2 {
        '\u{2839}'
    } else if k == 3 {
        '\u{2838}'
    } else if k == 4 {
        '\u{283C}'
    } else {
        '\u{2834}'
    }
}

fn run_mark(s: &DemoState, finished: bool, completed: usize, index: usize, entry: &ReviewEntry) -> (r: (String, Tone, String))
    requires
        completed == run_completed(*s, finished),
        index < run_entries(*s).len(),
        *entry == run_entries(*s)[index as int],
    ensures
        (r.0@, r.1, r.2@) == run_row_mark(*s, finished, index as nat),
{
    proof {
        reveal_strlit("no change");
        reveal_strlit("aborted");
        reveal_strlit("running");
        reveal_strlit("pending");
    }
    if (!s.run_aborted && finished) || index < completed {
        let o = action_outcome(entry, index);
        let tone = if str_eq(o, "no change") {
            Tone::Muted
        } else {
            Tone::Success
        };
        let mut m = String::new();
        crate::text::push_char(&mut m, '\u{F058}');
        assert(m@ =~= seq!['\u{F058}']);
        (m, tone, String::from_str(o))
    } else if s.run_aborted && index == completed {
        let mut m = String::new();
        crate::text::push_char(&mut m, '\u{F04D}');
        assert(m@ =~= seq!['\u{F04D}']);
        (m, Tone::Warning, String::from_str("aborted"))
    } else if !finished && index == completed {
        let mut m = String::new();
        crate::text::push_char(&mut m, spinner_at(s.run_step % 6));
        assert(m@ =~= seq![spinner_char((s.run_step % 6) as nat)]);
        (m, Tone::Accent, String::from_str("running"))
    } else {
        let mut m = String::new();
        crate::text::push_char(&mut m, '\u{F04C}');
        assert(m@ =~= seq!['\u{F04C}']);
        (m, Tone::FgDim, String::from_str("pending"))
    }
}

fn push_run_rows(
    out: &mut Vec<DrawLine>,
    s: &DemoState,
    finished: bool,
    pos: &Vec<usize>,
    completed: usize,
)
    requires
        pos@.len() == run_entries(*s).len(),
        forall|k: int| 0 <= k < pos@.len() ==> #[trigger] pos@[k] < s.seed.review_entries@.len(),
        forall|k: int|
            0 <= k < pos@.len() ==> s.seed.review_entries@[pos@[k] as int] == #[trigger] run_entries(*s)[k],
        completed == run_completed(*s, finished),
    ensures
        lines_v(final(out)@) == lines_v(old(out)@) + run_rows(*s, finished),
{
    proof {
        lemma_shown_visible(s.seed.items@, s.seed.review_entries@);
    }
    let total = pos.len();
    let width = s.width.saturating_sub(2) as usize;
    let bh = s.height.saturating_sub(15) as usize;
    let follow = if finished {
        total.saturating_sub(bh)
    } else {
        let a = completed.saturating_sub(bh / 2);
        let b = total.saturating_sub(bh);
        if a <= b {
            a
        } else {
            b
        }
    };
    let offset = follow.saturating_sub(s.run_scroll);
    let rest = total.saturating_sub(offset);
    let count = if bh <= rest {
        bh
    } else {
        rest
    };
    assert(offset == run_offset(*s, finished));
    assert(count == run_row_count(*s, finished));
    let mut v: usize = 0;
    while v < count
        invariant
            v <= count,
            count == run_row_count(*s, finished),
            offset == run_offset(*s, finished),
            offset + count <= total,
            count <= bh,
            bh == run_body_height(*s),
            bh + 15 <= s.height || bh == 0,
            width == sat_sub(s.width as int, 2),
            total == pos@.len(),
            pos@.len() == run_entries(*s).len(),
            forall|k: int| 0 <= k < pos@.len() ==> #[trigger] pos@[k] < s.seed.review_entries@.len(),
            forall|k: int|
                0 <= k < pos@.len() ==> s.seed.review_entries@[pos@[k] as int] == #[trigger] run_entries(*s)[k],
            forall|k: int|
                0 <= k < run_entries(*s).len() ==> entry_visible(s.seed.items@, #[trigger] run_entries(*s)[k]),
            completed == run_completed(*s, finished),
            lines_v(out@) == lines_v(old(out)@) + run_rows(*s, finished).take(v as int),
        decreases count - v,
    {
        let index = offset + v;
        let e = &s.seed.review_entries[pos[index]];
        assert(entry_visible(s.seed.items@, run_entries(*s)[index as int]));
        let (marker, tone, outcome) = run_mark(s, finished, completed, index, e);
        let mut label = marker;
        label.append(" ");
        label.append(e.kind_icon.as_str());
        label.append(" ");
        label.append(s.seed.items[e.item_index].name.as_str());
        label.append(" / ");
        label.append(e.detail.as_str());
        let gap0 = width.saturating_sub(text_width(label.as_str()).saturating_add(text_width(outcome.as_str())));
        let gap = if gap0 == 0 {
            1
        } else {
            gap0
        };
        let mut spans: Vec<Span> = Vec::new();
        spans.push(mk_span(label, tone, false));
        spans.push(mk_span(repeat_string(' ', gap), Tone::Plain, false));
        spans.push(mk_span(outcome, tone, false));
        let l = mk_line(1, (3 + v) as u16, Some(width), false, spans);
        proof {
            let ghost ee = run_entries(*s)[index as int];
            let ghost m = run_row_mark(*s, finished, index as nat);
            let ghost lab = m.0 + " "@ + ee.kind_icon@ + " "@ + s.seed.items@[ee.item_index as int].name@ + " / "@
                + ee.detail@;
            assert(label@ =~= lab);
            let ghost g = sat_sub(width as int, str_width_of(lab) + str_width_of(m.2));
            assert(gap == (if g == 0 { 1 } else { g }));
            let ghost want = run_row_line(*s, finished, v as nat);
            assert(line_v(l).spans =~= want.spans);
            assert(line_v(l).y == want.y);
            assert(line_v(l).limit == want.limit);
        }
        push_line(out, l);
        assert(run_rows(*s, finished).take(v + 1) =~= run_rows(*s, finished).take(v as int).push(
            run_row_line(*s, finished, v as nat),
        ));
        v += 1;
    }
    assert(run_rows(*s, finished).take(count as int) =~= run_rows(*s, finished));
}

fn activity_at(k: usize) -> (r: &'static str)
    requires
        k < 6,
    ensures
        r@ == activity(k as nat),
{
    if k == 0 {
        "deploy started"
    } else if k == 1 {
        "  checking selected actions"
    } else if k == 2 {
        "  resolving package state"
    } else if k == 3 {
        "  linking portable configuration"
    } else if k == 4 {
        "  creating required directories"
    } else {
        "  running guarded shell steps"
    }
}

fn push_closing(v: &mut Vec<String>, s: &DemoState, finished: bool)
    ensures
        str_views(final(v)@) == str_views(old(v)@) + run_closing(*s, finished),
{
    if s.run_aborted {
        v.push(String::from_str("run aborted"));
    } else if finished {
        v.push(String::from_str("run completed successfully"));
    }
    assert(str_views(v@) =~= str_views(old(v)@) + run_closing(*s, finished));
}

fn shown_log(s: &DemoState, finished: bool) -> (r: Vec<String>)
    ensures
        str_views(r@) == log_shown(*s, finished),
{
    let n: usize = if finished && !s.run_aborted {
        6
    } else if s.run_step < 5 {
        s.run_step as usize + 1
    } else {
        6
    };
    let mut m: Vec<String> = Vec::new();
    let mut k: usize = 0;
    while k < n
        invariant
            k <= n <= 6,
            m@.len() == k,
            str_views(m@) == Seq::new(k as nat, |j: int| activity(j as nat)),
        decreases n - k,
    {
        let a = String::from_str(activity_at(k));
        let ghost before = m@;
        m.push(a);
        k += 1;
        assert forall|j: int| 0 <= j < k implies #[trigger] str_views(m@)[j] == activity(j as nat) by {
            if j < k - 1 {
                assert(m@[j] == before[j]);
                assert(str_views(before)[j] == activity(j as nat));
            }
        }
        assert(str_views(m@) =~= Seq::new(k as nat, |j: int| activity(j as nat)));
    }
    push_closing(&mut m, s, finished);
    assert(str_views(m@) =~= log_messages(*s, finished));
    if s.run_filter == 2 {
        let mut r: Vec<String> = Vec::new();
        r.push(String::from_str("no errors in this simulated run"));
        assert(str_views(r@) =~= log_shown(*s, finished));
        r
    } else if s.run_filter == 1 {
        let start = m.len().saturating_sub(2);
        let mut r: Vec<String> = Vec::new();
        let mut i = start;
        while i < m.len()
            invariant
                start <= i <= m@.len(),
                r@.len() == i - start,
                str_views(r@) == str_views(m@).subrange(start as int, i as int),
            decreases m@.len() - i,
        {
            let c = m[i].clone();
            let ghost before = r@;
            r.push(c);
            i += 1;
            assert forall|j: int| 0 <= j < r@.len() implies #[trigger] str_views(r@)[j] == str_views(m@)[start + j] by {
                if j < r@.len() - 1 {
                    assert(r@[j] == before[j]);
                    assert(str_views(before)[j] == str_views(m@).subrange(start as int, i - 1)[j]);
                }
            }
            assert(str_views(r@) =~= str_views(m@).subrange(start as int, i as int));
        }
        assert(str_views(r@) =~= log_shown(*s, finished));
        r
    } else if s.run_folded && m.len() > 1 {
        let mut r: Vec<String> = Vec::new();
        r.push(m[0].clone());
        r.push(String::from_str("  \u{25B8} activity (details folded)"));
        push_closing(&mut r, s, finished);
        assert(str_views(r@) =~= log_shown(*s, finished));
        r
    } else {
        assert(str_views(m@) =~= log_shown(*s, finished));
        m
    }
}

fn tone_of_log(msg: &str) -> (r: Tone)
    ensures
        r == log_tone(msg@),
{
    let v = crate::text::chars_of(msg);
    if crate::text::contains(v.as_slice(), crate::text::chars_of("completed").as_slice()) {
        Tone::Success
    } else if crate::text::contains(v.as_slice(), crate::text::chars_of("aborted").as_slice()) {
        Tone::Warning
    } else {
        Tone::Fg
    }
}

fn push_log(out: &mut Vec<DrawLine>, s: &DemoState, finished: bool)
    ensures
        lines_v(final(out)@) == lines_v(old(out)@) + log_lines(*s, finished),
{
    let width = s.width.saturating_sub(2) as usize;
    let top = s.height.saturating_sub(11);
    let mut title = String::from_str("\u{250C} log: follow \u{B7} ");
    title.append(if s.run_filter == 1 {
        "current"
    } else if s.run_filter == 2 {
        "errors"
    } else {
        "all"
    });
    title.append(" ");
    assert(title@ =~= log_title(*s));
    let tw = text_width(title.as_str());
    let mut head = title;
    push_repeat(&mut head, '\u{2500}', width.saturating_sub(tw.saturating_add(1)));
    crate::text::push_char(&mut head, '\u{2510}');
    let ghost t = log_title(*s);
    assert(head@ =~= t + repeat('\u{2500}', sat_sub(width as int, str_width_of(t) + 1)) + seq!['\u{2510}']);
    if top < s.height {
        push_line(out, mk_one(1, top, None, false, head, Tone::Divider, false));
    }
    let ghost first = lines_v(out@);
    assert(first =~= lines_v(old(out)@) + on_screen(
        one(1, top as nat, None, false, sv(t + repeat('\u{2500}', sat_sub(width as int, str_width_of(t) + 1)) + seq!['\u{2510}'], Tone::Divider, false)),
        s.height as nat,
    ));
    let shown = shown_log(s, finished);
    let mut row: u16 = 0;
    while row < 8
        invariant
            row <= 8,
            top as int == sat_sub(s.height as int, 11),
            width as int == sat_sub(s.width as int, 2),
            str_views(shown@) == log_shown(*s, finished),
            lines_v(out@) == first + log_rows_upto(*s, finished, row as nat),
        decreases 8 - row,
    {
        let y = top + row + 1;
        let mut text = String::new();
        crate::text::push_char(&mut text, '\u{2502}');
        let msg: &str = if (row as usize) < shown.len() {
            shown[row as usize].as_str()
        } else {
            ""
        };
        let ghost want = log_row(*s, finished, row as nat);
        proof {
            reveal_strlit("");
            if (row as int) < shown@.len() {
                assert(msg@ == log_shown(*s, finished)[row as int]);
            }
        }
        text.append(fit(msg, width.saturating_sub(2)).as_str());
        crate::text::push_char(&mut text, '\u{2502}');
        let tone = tone_of_log(msg);
        proof {
            let ghost mv = if (row as int) < log_shown(*s, finished).len() {
                log_shown(*s, finished)[row as int]
            } else {
                Seq::<char>::empty()
            };
            assert(msg@ == mv);
            assert(text@ =~= seq!['\u{2502}'] + fit_spec(mv, sat_sub(sat_sub(s.width as int, 2) as int, 2)) + seq!['\u{2502}']);
        }
        if y < s.height {
            let l = mk_one(1, y, None, false, text, tone, false);
            assert(line_v(l).spans =~= want.spans);
            assert(line_v(l) =~= want);
            push_line(out, l);
        }
        assert(lines_v(out@) =~= first + log_rows_upto(*s, finished, (row + 1) as nat));
        row += 1;
    }
    let mut bottom = String::new();
    crate::text::push_char(&mut bottom, '\u{2514}');
    push_repeat(&mut bottom, '\u{2500}', width.saturating_sub(2));
    crate::text::push_char(&mut bottom, '\u{2518}');
    let ghost mid = lines_v(out@);
    let ghost w = sat_sub(s.width as int, 2);
    assert(bottom@ =~= seq!['\u{2514}'] + repeat('\u{2500}', sat_sub(w as int, 2)) + seq!['\u{2518}']);
    if top + 9 < s.height {
        push_line(out, mk_one(1, top + 9, None, false, bottom, Tone::Divider, false));
    }
    assert(lines_v(out@) =~= lines_v(old(out)@) + log_lines(*s, finished));
}

fn push_help_pair(spans: &mut Vec<Span>, key: &str, label: &str)
    ensures
        final(spans)@.map_values(|x: Span| span_v(x)) == old(spans)@.map_values(|x: Span| span_v(x)) + seq![
            sv("["@ + key@ + "]"@, Tone::Muted, true),
            sv(label@, Tone::FgDim, false),
        ],
{
    let mut k = String::from_str("[");
    k.append(key);
    k.append("]");
    spans.push(mk_span(k, Tone::Muted, true));
    spans.push(mk_span(String::from_str(label), Tone::FgDim, false));
    assert(spans@.map_values(|x: Span| span_v(x)) =~= old(spans)@.map_values(|x: Span| span_v(x)) + seq![
        sv("["@ + key@ + "]"@, Tone::Muted, true),
        sv(label@, Tone::FgDim, false),
    ]);
}

fn run_help(s: &DemoState, finished: bool) -> (r: DrawLine)
    ensures
        line_v(r) == run_help_line(*s, finished),
{
    let mut spans: Vec<Span> = Vec::new();
    assert(spans@.map_values(|x: Span| span_v(x)) =~= Seq::<SpanV>::empty());
    push_help_pair(&mut spans, "\u{2191}\u{2193}", " Scroll  ");
    push_help_pair(&mut spans, "Tab", " Filter  ");
    push_help_pair(&mut spans, "Enter", " Fold  ");
    let last = if finished {
        " Back"
    } else if s.run_aborting {
        " Stopping"
    } else {
        " Abort"
    };
    push_help_pair(&mut spans, "q", last);
    let r = mk_line(1, s.height.saturating_sub(1), Some(s.width.saturating_sub(2) as usize), false, spans);
    proof {
        let parts = run_help_parts(*s, finished);
        reveal_with_fuel(help_spans, 5);
        assert(parts.drop_last().drop_last().drop_last().drop_last() =~= Seq::<(Seq<char>, Seq<char>)>::empty());
        assert(line_v(r).spans =~= help_spans(parts));
    }
    r
}

/// What the run screen draws, line by line, for the state and whether the
/// run has finished. The progress bar holds at most ten tenths: a run
/// whose steps would overfill it is not drawn.
pub fn run_screen_lines(state: &DemoState, finished: bool) -> (r: Vec<DrawLine>)
    requires
        run_filled(*state, finished) <= 10,
    ensures
        lines_v(r@) == run_screen_spec(*state, finished),
{
    let pos = shown_positions(state);
    let total = pos.len();
    let (completed, filled) = run_progress(state, finished, total);
    let mut out: Vec<DrawLine> = Vec::new();
    push_line(&mut out, run_header(state, finished, completed, total, filled));
    assert(lines_v(out@) =~= seq![run_header_line(*state, finished)]);
    push_run_current(&mut out, state, finished, &pos, completed);
    push_run_rows(&mut out, state, finished, &pos, completed);
    push_log(&mut out, state, finished);
    push_line(&mut out, run_help(state, finished));
    out
}

// ---------------------------------------------------------------------------
// The plan screen.

/// A row fits the items and the grid: an item row names an item, a grid
/// row names at most `columns` items.
pub open spec fn row_fits(r: RowV, n: nat, columns: nat) -> bool {
    match r {
        RowV::Item(i) => i < n,
        RowV::Inline(v) => v.len() <= columns && forall|k: int| 0 <= k < v.len() ==> (#[trigger] v[k]) < n,
        _ => true,
    }
}

proof fn lemma_layer_indices_bound(items: Seq<SeedItem>, layer: Seq<char>)
    ensures
        forall|k: int| 0 <= k < layer_indices(items, layer).len() ==> (#[trigger] layer_indices(items, layer)[k]) < items.len(),
    decreases items.len(),
{
    if items.len() > 0 {
        lemma_layer_indices_bound(items.drop_last(), layer);
        let prev = layer_indices(items.drop_last(), layer);
        assert forall|k: int| 0 <= k < layer_indices(items, layer).len() implies (#[trigger] layer_indices(
            items,
            layer,
        )[k]) < items.len() by {
            if k < prev.len() {
                assert(layer_indices(items, layer)[k] == prev[k]);
            }
        }
    }
}

proof fn lemma_chunk_rows_fit(ix: Seq<usize>, columns: nat, n: nat)
    requires
        columns >= 1,
        forall|k: int| 0 <= k < ix.len() ==> (#[trigger] ix[k]) < n,
    ensures
        forall|j: int| 0 <= j < chunk_rows(ix, columns).len() ==> row_fits(#[trigger] chunk_rows(ix, columns)[j], n, columns),
    decreases ix.len(),
{
    if ix.len() > columns {
        let rest = ix.skip(columns as int);
        assert forall|k: int| 0 <= k < rest.len() implies (#[trigger] rest[k]) < n by {
            assert(rest[k] == ix[k + columns]);
        }
        lemma_chunk_rows_fit(rest, columns, n);
        let head = ix.take(columns as int);
        assert forall|k: int| 0 <= k < head.len() implies (#[trigger] head[k]) < n by {
            assert(head[k] == ix[k]);
        }
        assert forall|j: int| 0 <= j < chunk_rows(ix, columns).len() implies row_fits(
            #[trigger] chunk_rows(ix, columns)[j],
            n,
            columns,
        ) by {
            if j > 0 {
                assert(chunk_rows(ix, columns)[j] == chunk_rows(rest, columns)[j - 1]);
            }
        }
    }
}

proof fn lemma_rows_upto_fit(items: Seq<SeedItem>, c: Seq<Seq<char>>, columns: nat, n: int)
    requires
        columns >= 1,
    ensures
        forall|j: int|
            0 <= j < rows_upto(items, c, columns, n).len() ==> row_fits(
                #[trigger] rows_upto(items, c, columns, n)[j],
                items.len(),
                columns,
            ),
    decreases n,
{
    if n > 0 {
        lemma_rows_upto_fit(items, c, columns, n - 1);
        let k = n - 1;
        let ix = layer_indices(items, layer_name(k));
        lemma_layer_indices_bound(items, layer_name(k));
        lemma_chunk_rows_fit(ix, columns, items.len());
        let prev = rows_upto(items, c, columns, n - 1);
        let lr = layer_rows(items, c, columns, k);
        assert forall|j: int| 0 <= j < lr.len() implies row_fits(#[trigger] lr[j], items.len(), columns) by {
            if ix.len() > 0 {
                let body = if c.contains(layer_name(k)) {
                    Seq::<RowV>::empty()
                } else if k < 3 || columns == 1 {
                    Seq::new(ix.len(), |i: int| RowV::Item(ix[i] as nat))
                } else {
                    chunk_rows(ix, columns)
                };
                if 1 <= j < 1 + body.len() {
                    assert(lr[j] == body[j - 1]);
                }
            }
        }
        assert forall|j: int| 0 <= j < rows_upto(items, c, columns, n).len() implies row_fits(
            #[trigger] rows_upto(items, c, columns, n)[j],
            items.len(),
            columns,
        ) by {
            if j < prev.len() {
                assert(rows_upto(items, c, columns, n)[j] == prev[j]);
            } else {
                assert(rows_upto(items, c, columns, n)[j] == lr[j - prev.len()]);
            }
        }
    }
}

/// A number in at least two digits.
pub open spec fn two_digits(n: nat) -> Seq<char> {
    if n < 10 {
        seq!['0'] + decimal(n)
    } else {
        decimal(n)
    }
}

/// How many of the items at `ix` are selected.
pub open spec fn selected_among(items: Seq<SeedItem>, ix: Seq<usize>) -> nat
    decreases ix.len(),
{
    if ix.len() == 0 {
        0
    } else {
        selected_among(items, ix.drop_last()) + (if items[ix.last() as int].selected {
            1nat
        } else {
            0nat
        })
    }
}

/// A full-width row with text on the left and on the right, highlighted
/// with a bar at its start when focused.
pub open spec fn bar_row(y: nat, width: nat, left: Seq<char>, right: Seq<char>, focused: bool, tone: Tone) -> Seq<LineV> {
    let gap0 = sat_sub(sat_sub(width as int, 2) as int, str_width_of(left) + str_width_of(right));
    let gap = if gap0 == 0 {
        1
    } else {
        gap0
    };
    let l = one(1, y, None, focused, sv(fit_spec("  "@ + left + repeat(' ', gap) + right, width), tone, false));
    if focused {
        seq![l, one(1, y, None, true, sv(seq!['\u{258E}'], Tone::Primary, false))]
    } else {
        seq![l]
    }
}

/// A layer's heading: fold icon, ordinal and name, and how many of its items
/// are selected.
pub open spec fn header_row_lines(s: DemoState, y: nat, layer: Seq<char>, ordinal: nat, focused: bool) -> Seq<LineV> {
    let items = s.seed.items@;
    let ix = layer_indices(items, layer);
    let icon = if str_views(s.collapsed@).contains(layer) {
        seq!['\u{F460}']
    } else {
        seq!['\u{F47C}']
    };
    let left = icon + " "@ + two_digits(ordinal) + "  "@ + capitalize_spec(layer);
    let right = decimal(selected_among(items, ix)) + " / "@ + decimal(ix.len());
    bar_row(y, sat_sub(s.width as int, 2), left, right, focused, Tone::Muted)
}

/// An item's label: its name, with the count of further actions.
pub open spec fn item_label(it: SeedItem) -> Seq<char> {
    if it.action_count > 1 {
        it.name@ + " (+"@ + decimal((it.action_count - 1) as nat) + ")"@
    } else {
        it.name@
    }
}

/// An item in a cell `rel` columns in: its line fitted to the cell, its
/// checkbox coloured by whether it is selected, and the focus bar.
pub open spec fn item_lines(y: nat, rel: nat, width: nat, it: SeedItem, focused: bool) -> Seq<LineV> {
    let x = 1 + rel;
    let checkbox = if it.selected {
        seq!['\u{F0132}']
    } else {
        seq!['\u{F0131}']
    };
    let marker = if rel == 0 {
        if focused {
            "  \u{258E} "@
        } else {
            "    "@
        }
    } else if focused {
        "\u{258E} "@
    } else {
        "  "@
    };
    let content = marker + checkbox + "  "@ + item_label(it);
    let base = seq![
        one(x, y, None, focused, sv(fit_spec(content, width), Tone::Fg, false)),
        one(
            x + (if rel == 0 {
                4nat
            } else {
                2nat
            }),
            y,
            None,
            focused,
            sv(checkbox, if it.selected { Tone::Success } else { Tone::FgDim }, false),
        ),
    ];
    if focused {
        base.push(
            one(
                x + (if rel == 0 {
                    2nat
                } else {
                    0nat
                }),
                y,
                None,
                true,
                sv(seq!['\u{258E}'], Tone::Primary, false),
            ),
        )
    } else {
        base
    }
}

/// The first `n` cells of a grid row.
pub open spec fn inline_lines(s: DemoState, y: nat, ix: Seq<usize>, cell: nat, focused: bool, n: nat) -> Seq<LineV>
    decreases n,
{
    if n == 0 {
        Seq::empty()
    } else {
        let c = (n - 1) as nat;
        inline_lines(s, y, ix, cell, focused, c) + item_lines(
            y,
            2 + c * (cell + 4),
            cell,
            s.seed.items@[ix[c as int] as int],
            focused && c == s.grid_col,
        )
    }
}

/// The rows the plan list takes, above the status and key hints.
pub open spec fn plan_max_rows(s: DemoState) -> nat {
    sat_sub(sat_sub(s.height as int, 4) as int, 2)
}

/// The first plan row in view.
pub open spec fn plan_offset(s: DemoState) -> nat {
    list_offset_spec(s.plan_row as nat, s.rows_spec().len(), plan_max_rows(s))
}

/// The number of plan rows in view.
pub open spec fn plan_row_count(s: DemoState) -> nat {
    min_nat(plan_max_rows(s), sat_sub(s.rows_spec().len() as int, plan_offset(s) as int))
}

/// What the `v`-th plan row in view draws.
pub open spec fn plan_row_lines(s: DemoState, v: nat) -> Seq<LineV> {
    let ri = plan_offset(s) + v;
    let y = 2 + v;
    let focused = ri == s.plan_row;
    let w = sat_sub(s.width as int, 2);
    match s.rows_spec()[ri as int] {
        RowV::Header(layer, ordinal) => header_row_lines(s, y, layer, ordinal, focused),
        RowV::Item(i) => item_lines(y, 0, w, s.seed.items@[i as int], focused),
        RowV::Inline(ix) => inline_lines(
            s,
            y,
            ix,
            grid_cell_width_spec(w, plan_columns_spec(s.width)),
            focused,
            ix.len(),
        ),
        RowV::Divider => seq![one(1, y, None, false, sv("  "@ + repeat('\u{2500}', sat_sub(w as int, 2)), Tone::Divider, false))],
    }
}

/// What the first `n` plan rows in view draw.
pub open spec fn plan_rows_upto(s: DemoState, n: nat) -> Seq<LineV>
    decreases n,
{
    if n == 0 {
        Seq::empty()
    } else {
        plan_rows_upto(s, (n - 1) as nat) + plan_row_lines(s, (n - 1) as nat)
    }
}

/// The plan header: title, whether the selection is saved, the counts of
/// selected items and actions, and a divider filling the row.
pub open spec fn plan_header_line(s: DemoState) -> LineV {
    let w = sat_sub(s.width as int, 2);
    let items = s.seed.items@;
    let saved = if s.dirty {
        "unsaved"@
    } else {
        "saved"@
    };
    let counts = decimal(selected_count_spec(items)) + " selected \u{B7} "@ + decimal(selected_actions_spec(items))
        + " actions"@;
    let prefix = "\u{F013}  dotman - Plan (\u{25CB} "@ + saved + ")  "@ + counts + " "@;
    LineV {
        x: 1,
        y: 1,
        limit: Some(w),
        active: false,
        spans: seq![
            sv("\u{F013}  dotman - Plan ("@, Tone::FgDim, true),
            sv("\u{25CB} "@ + saved, Tone::Muted, false),
            sv(")  "@, Tone::FgDim, false),
            sv(counts, Tone::FgDim, false),
            sv(" "@ + repeat('\u{2500}', sat_sub(w as int, str_width_of(prefix) as int)), Tone::Divider, false),
        ],
    }
}

/// The status line above the key hints, when there is a status.
pub open spec fn plan_status_lines(s: DemoState) -> Seq<LineV> {
    if s.status@.len() > 0 {
        on_screen(one(1, sat_sub(s.height as int, 4), None, false, sv("  "@ + s.status@, Tone::Muted, false)), s.height as nat)
    } else {
        Seq::empty()
    }
}

/// The plan screen's key hints; opened from the plan entry of the main menu
/// it is read-only and offers no review.
pub open spec fn plan_help_parts(s: DemoState) -> Seq<(Seq<char>, Seq<char>)> {
    if s.parent_index == 1 {
        seq![
            ("\u{2191}\u{2193}"@, " Navigate  "@),
            ("Space"@, " Toggle  "@),
            ("s"@, " Save  "@),
            ("q"@, " Back  "@),
            ("read-only"@, ""@),
        ]
    } else {
        seq![
            ("\u{2191}\u{2193}"@, " Navigate  "@),
            ("Space"@, " Toggle  "@),
            ("s"@, " Save  "@),
            ("r"@, " Review  "@),
            ("q"@, " Back"@),
        ]
    }
}

/// The key hints below the status line.
pub open spec fn plan_help_line(s: DemoState) -> LineV {
    LineV {
        x: 1,
        y: sat_sub(s.height as int, 4) + 1,
        limit: Some(sat_sub(s.width as int, 2)),
        active: false,
        spans: help_spans(plan_help_parts(s)),
    }
}

/// The plan screen, in drawing order: header, the rows in view, the status
/// and the key hints.
pub open spec fn plan_screen_spec(s: DemoState) -> Seq<LineV> {
    seq![plan_header_line(s)] + plan_rows_upto(s, plan_row_count(s)) + plan_status_lines(s) + seq![plan_help_line(s)]
}

fn plan_header(s: &DemoState) -> (r: DrawLine)
    requires
        selected_actions_spec(s.seed.items@) <= usize::MAX,
    ensures
        line_v(r) == plan_header_line(*s),
{
    let width = s.width.saturating_sub(2) as usize;
    let (selected, actions) = s.selected_counts();
    let saved = if s.dirty {
        "unsaved"
    } else {
        "saved"
    };
    let mut counts = dec_string(selected);
    counts.append(" selected \u{B7} ");
    counts.append(dec_string(actions).as_str());
    counts.append(" actions");
    let mut prefix = String::from_str("\u{F013}  dotman - Plan (\u{25CB} ");
    prefix.append(saved);
    prefix.append(")  ");
    prefix.append(counts.as_str());
    prefix.append(" ");
    let pw = text_width(prefix.as_str());
    let mut mark = String::from_str("\u{25CB} ");
    mark.append(saved);
    let mut tail = String::from_str(" ");
    push_repeat(&mut tail, '\u{2500}', width.saturating_sub(pw));
    let mut spans: Vec<Span> = Vec::new();
    spans.push(mk_span(String::from_str("\u{F013}  dotman - Plan ("), Tone::FgDim, true));
    spans.push(mk_span(mark, Tone::Muted, false));
    spans.push(mk_span(String::from_str(")  "), Tone::FgDim, false));
    spans.push(mk_span(counts, Tone::FgDim, false));
    spans.push(mk_span(tail, Tone::Divider, false));
    let r = mk_line(1, 1, Some(width), false, spans);
    proof {
        let items = s.seed.items@;
        let sv_ = if s.dirty {
            "unsaved"@
        } else {
            "saved"@
        };
        let c = decimal(selected_count_spec(items)) + " selected \u{B7} "@ + decimal(selected_actions_spec(items))
            + " actions"@;
        assert(prefix@ =~= "\u{F013}  dotman - Plan (\u{25CB} "@ + sv_ + ")  "@ + c + " "@);
        assert(line_v(r).spans =~= plan_header_line(*s).spans);
    }
    r
}

fn push_bar_row(out: &mut Vec<DrawLine>, y: u16, width: usize, left: &str, right: &str, focused: bool, tone: Tone)
    ensures
        lines_v(final(out)@) == lines_v(old(out)@) + bar_row(y as nat, width as nat, left@, right@, focused, tone),
{
    let inner = width.saturating_sub(2);
    let gap0 = inner.saturating_sub(text_width(left).saturating_add(text_width(right)));
    let gap = if gap0 == 0 {
        1
    } else {
        gap0
    };
    let mut line = String::from_str("  ");
    line.append(left);
    push_repeat(&mut line, ' ', gap);
    line.append(right);
    push_line(out, mk_one(1, y, None, focused, fit(line.as_str(), width), tone, false));
    if focused {
        let mut bar = String::new();
        crate::text::push_char(&mut bar, '\u{258E}');
        assert(bar@ =~= seq!['\u{258E}']);
        push_line(out, mk_one(1, y, None, true, bar, Tone::Primary, false));
    }
    assert(lines_v(out@) =~= lines_v(old(out)@) + bar_row(y as nat, width as nat, left@, right@, focused, tone));
}

fn count_selected_at(items: &Vec<SeedItem>, ix: &Vec<usize>) -> (r: usize)
    requires
        forall|k: int| 0 <= k < ix@.len() ==> (#[trigger] ix@[k]) < items@.len(),
    ensures
        r == selected_among(items@, ix@),
{
    let mut n: usize = 0;
    let mut i: usize = 0;
    while i < ix.len()
        invariant
            i <= ix@.len(),
            forall|k: int| 0 <= k < ix@.len() ==> (#[trigger] ix@[k]) < items@.len(),
            n == selected_among(items@, ix@.take(i as int)),
            n <= i,
        decreases ix@.len() - i,
    {
        proof {
            assert(ix@.take(i + 1).drop_last() =~= ix@.take(i as int));
        }
        if items[ix[i]].selected {
            n = n + 1;
        }
        i += 1;
    }
    proof {
        assert(ix@.take(ix@.len() as int) =~= ix@);
    }
    n
}

fn push_header_row(out: &mut Vec<DrawLine>, s: &DemoState, y: u16, layer: &str, ordinal: usize, focused: bool)
    ensures
        lines_v(final(out)@) == lines_v(old(out)@) + header_row_lines(*s, y as nat, layer@, ordinal as nat, focused),
{
    let ix = crate::demo::indices_in_layer(&s.seed.items, layer);
    proof {
        lemma_layer_indices_bound(s.seed.items@, layer@);
    }
    let enabled = count_selected_at(&s.seed.items, &ix);
    let mut left = String::new();
    let folded = crate::text::contains_str(&s.collapsed, layer);
    crate::text::push_char(&mut left, if folded { '\u{F460}' } else { '\u{F47C}' });
    left.append(" ");
    if ordinal < 10 {
        left.append("0");
    }
    left.append(dec_string(ordinal).as_str());
    left.append("  ");
    left.append(capitalize(layer).as_str());
    let mut right = dec_string(enabled);
    right.append(" / ");
    right.append(dec_string(ix.len()).as_str());
    proof {
        reveal_strlit("0");
        let icon = if str_views(s.collapsed@).contains(layer@) {
            seq!['\u{F460}']
        } else {
            seq!['\u{F47C}']
        };
        assert(left@ =~= icon + " "@ + two_digits(ordinal as nat) + "  "@ + capitalize_spec(layer@));
    }
    push_bar_row(out, y, s.width.saturating_sub(2) as usize, left.as_str(), right.as_str(), focused, Tone::Muted);
}

fn push_item(out: &mut Vec<DrawLine>, y: u16, rel: u16, width: usize, it: &SeedItem, focused: bool)
    requires
        rel + 5 <= u16::MAX,
    ensures
        lines_v(final(out)@) == lines_v(old(out)@) + item_lines(y as nat, rel as nat, width as nat, *it, focused),
{
    let x: u16 = 1 + rel;
    let mut label = String::from_str(it.name.as_str());
    if it.action_count > 1 {
        label.append(" (+");
        label.append(dec_string(it.action_count - 1).as_str());
        label.append(")");
    }
    assert(label@ =~= item_label(*it));
    let cb: char = if it.selected {
        '\u{F0132}'
    } else {
        '\u{F0131}'
    };
    let mut content = String::from_str(
        if rel == 0 {
            if focused {
                "  \u{258E} "
            } else {
                "    "
            }
        } else if focused {
            "\u{258E} "
        } else {
            "  "
        },
    );
    crate::text::push_char(&mut content, cb);
    content.append("  ");
    content.append(label.as_str());
    proof {
        let marker = if rel == 0 {
            if focused {
                "  \u{258E} "@
            } else {
                "    "@
            }
        } else if focused {
            "\u{258E} "@
        } else {
            "  "@
        };
        let checkbox = if it.selected {
            seq!['\u{F0132}']
        } else {
            seq!['\u{F0131}']
        };
        assert(content@ =~= marker + checkbox + "  "@ + item_label(*it));
    }
    push_line(out, mk_one(x, y, None, focused, fit(content.as_str(), width), Tone::Fg, false));
    let mut check = String::new();
    crate::text::push_char(&mut check, cb);
    assert(check@ =~= seq![cb]);
    let cx: u16 = x + if rel == 0 {
        4
    } else {
        2
    };
    push_line(
        out,
        mk_one(cx, y, None, focused, check, if it.selected { Tone::Success } else { Tone::FgDim }, false),
    );
    if focused {
        let mut bar = String::new();
        crate::text::push_char(&mut bar, '\u{258E}');
        assert(bar@ =~= seq!['\u{258E}']);
        let bx: u16 = x + if rel == 0 {
            2
        } else {
            0
        };
        push_line(out, mk_one(bx, y, None, true, bar, Tone::Primary, false));
    }
    assert(lines_v(out@) =~= lines_v(old(out)@) + item_lines(y as nat, rel as nat, width as nat, *it, focused));
}

proof fn lemma_cell_offset(w: nat, columns: nat, c: nat)
    requires
        w <= 65535,
        1 <= columns <= 3,
        c < columns,
    ensures
        2 + c * (grid_cell_width_spec(w, columns) + 4) + 5 <= 65535,
{
    let cell = grid_cell_width_spec(w, columns);
    if columns == 2 {
        let ww = sat_sub(w as int, 8);
        assert(cell == (if ww / 2 < 18 { 18 } else { ww / 2 }));
        assert(cell <= 32767);
    } else if columns == 3 {
        let ww = sat_sub(w as int, 12);
        assert(cell == (if ww / 3 < 18 { 18 } else { ww / 3 }));
        assert(cell <= 21845);
    }
    if c == 1 {
        assert(c * (cell + 4) == cell + 4);
    } else if c == 2 {
        assert(c * (cell + 4) == 2 * cell + 8);
    }
}

fn push_inline(out: &mut Vec<DrawLine>, s: &DemoState, y: u16, ix: &Vec<usize>, cell: usize, focused: bool, columns: usize)
    requires
        1 <= columns <= 3,
        ix@.len() <= columns,
        cell == grid_cell_width_spec(sat_sub(s.width as int, 2), columns as nat),
        forall|k: int| 0 <= k < ix@.len() ==> (#[trigger] ix@[k]) < s.seed.items@.len(),
    ensures
        lines_v(final(out)@) == lines_v(old(out)@) + inline_lines(*s, y as nat, ix@, cell as nat, focused, ix@.len()),
{
    let mut c: usize = 0;
    while c < ix.len()
        invariant
            c <= ix@.len() <= columns <= 3,
            1 <= columns,
            cell == grid_cell_width_spec(sat_sub(s.width as int, 2), columns as nat),
            forall|k: int| 0 <= k < ix@.len() ==> (#[trigger] ix@[k]) < s.seed.items@.len(),
            lines_v(out@) == lines_v(old(out)@) + inline_lines(*s, y as nat, ix@, cell as nat, focused, c as nat),
        decreases ix@.len() - c,
    {
        proof {
            lemma_cell_offset(sat_sub(s.width as int, 2), columns as nat, c as nat);
            assert(c * (cell + 4) <= 65535);
        }
        let rel = 2 + c * (cell + 4);
        let ghost before = lines_v(out@);
        push_item(out, y, rel as u16, cell, &s.seed.items[ix[c]], focused && c == s.grid_col);
        assert(lines_v(out@) =~= lines_v(old(out)@) + inline_lines(*s, y as nat, ix@, cell as nat, focused, (c + 1) as nat));
        c += 1;
    }
}

fn push_plan_rows(out: &mut Vec<DrawLine>, s: &DemoState)
    requires
        s.plan_row < usize::MAX,
    ensures
        lines_v(final(out)@) == lines_v(old(out)@) + plan_rows_upto(*s, plan_row_count(*s)),
{
    let rows = s.rows();
    let columns = plan_columns(s.width);
    let w = s.width.saturating_sub(2) as usize;
    let cell = grid_cell_width(w, columns);
    let footer_y = s.height.saturating_sub(4);
    let max_rows = footer_y.saturating_sub(2) as usize;
    let offset = list_offset(s.plan_row, rows.len(), max_rows);
    let rest = rows.len().saturating_sub(offset);
    let count = if max_rows <= rest {
        max_rows
    } else {
        rest
    };
    proof {
        lemma_rows_upto_fit(s.seed.items@, str_views(s.collapsed@), columns as nat, 6);
    }
    let mut v: usize = 0;
    while v < count
        invariant
            v <= count,
            count == plan_row_count(*s),
            offset == plan_offset(*s),
            offset + count <= rows@.len(),
            count <= max_rows,
            max_rows + 6 <= s.height || max_rows == 0,
            rows_view(rows@) == s.rows_spec(),
            columns == plan_columns_spec(s.width),
            1 <= columns <= 3,
            w == sat_sub(s.width as int, 2),
            cell == grid_cell_width_spec(w as nat, columns as nat),
            forall|j: int|
                0 <= j < s.rows_spec().len() ==> row_fits(#[trigger] s.rows_spec()[j], s.seed.items@.len(), columns as nat),
            lines_v(out@) == lines_v(old(out)@) + plan_rows_upto(*s, v as nat),
        decreases count - v,
    {
        let ri = offset + v;
        let y: u16 = (2 + v) as u16;
        let focused = ri == s.plan_row;
        proof {
            assert(rows_view(rows@)[ri as int] == row_view(rows@[ri as int]));
            assert(row_fits(s.rows_spec()[ri as int], s.seed.items@.len(), columns as nat));
        }
        match &rows[ri] {
            PlanRow::Header { layer, ordinal } => {
                push_header_row(out, s, y, layer.as_str(), *ordinal, focused);
            },
            PlanRow::Item(i) => {
                push_item(out, y, 0, w, &s.seed.items[*i], focused);
            },
            PlanRow::Inline(ix) => {
                push_inline(out, s, y, ix, cell, focused, columns);
            },
            PlanRow::Divider => {
                let mut d = String::from_str("  ");
                push_repeat(&mut d, '\u{2500}', w.saturating_sub(2));
                push_line(out, mk_one(1, y, None, false, d, Tone::Divider, false));
            },
        }
        assert(lines_v(out@) =~= lines_v(old(out)@) + plan_rows_upto(*s, (v + 1) as nat));
        v += 1;
    }
}

fn plan_help(s: &DemoState) -> (r: DrawLine)
    ensures
        line_v(r) == plan_help_line(*s),
{
    let mut spans: Vec<Span> = Vec::new();
    assert(spans@.map_values(|x: Span| span_v(x)) =~= Seq::<SpanV>::empty());
    push_help_pair(&mut spans, "\u{2191}\u{2193}", " Navigate  ");
    push_help_pair(&mut spans, "Space", " Toggle  ");
    push_help_pair(&mut spans, "s", " Save  ");
    if s.parent_index == 1 {
        push_help_pair(&mut spans, "q", " Back  ");
        push_help_pair(&mut spans, "read-only", "");
    } else {
        push_help_pair(&mut spans, "r", " Review  ");
        push_help_pair(&mut spans, "q", " Back");
    }
    let r = mk_line(1, s.height.saturating_sub(4) + 1, Some(s.width.saturating_sub(2) as usize), false, spans);
    proof {
        let parts = plan_help_parts(*s);
        reveal_with_fuel(help_spans, 6);
        assert(parts.drop_last().drop_last().drop_last().drop_last().drop_last() =~= Seq::<(Seq<char>, Seq<char>)>::empty());
        assert(line_v(r).spans =~= help_spans(parts));
    }
    r
}

/// What the plan screen draws, line by line, for the state as the frame
/// left it (focus kept on a row).
pub fn plan_screen_lines(state: &DemoState) -> (r: Vec<DrawLine>)
    requires
        selected_actions_spec(state.seed.items@) <= usize::MAX,
        state.plan_row < usize::MAX,
    ensures
        lines_v(r@) == plan_screen_spec(*state),
{
    let mut out: Vec<DrawLine> = Vec::new();
    push_line(&mut out, plan_header(state));
    assert(lines_v(out@) =~= seq![plan_header_line(*state)]);
    push_plan_rows(&mut out, state);
    let footer_y = state.height.saturating_sub(4);
    let ghost mid = lines_v(out@);
    if !state.status.as_str().is_empty() && footer_y < state.height {
        let mut st = String::from_str("  ");
        st.append(state.status.as_str());
        push_line(&mut out, mk_one(1, footer_y, None, false, st, Tone::Muted, false));
    }
    assert(lines_v(out@) =~= mid + plan_status_lines(*state));
    push_line(&mut out, plan_help(state));
    out
}

} // verus!
