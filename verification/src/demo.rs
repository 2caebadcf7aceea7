//! The interactive demo of the plan screens: a state machine driven by keys,
//! pointer clicks and timer ticks, over a seed of plan items.

use vstd::prelude::*;
use crate::text::{contains_str, str_eq, str_views};

verus! {

pub const SCREEN_MAIN: u32 = 0;
pub const SCREEN_PLAN: u32 = 1;
pub const SCREEN_REVIEW: u32 = 2;
pub const SCREEN_RUN: u32 = 3;
pub const SCREEN_RESULT: u32 = 4;
pub const SCREEN_HISTORY: u32 = 5;
pub const SCREEN_REPLAY: u32 = 6;

pub const KEY_UP: u32 = 1;
pub const KEY_DOWN: u32 = 2;
pub const KEY_LEFT: u32 = 3;
pub const KEY_RIGHT: u32 = 4;
pub const KEY_ENTER: u32 = 5;
pub const KEY_SPACE: u32 = 6;
pub const KEY_BACK: u32 = 7;
pub const KEY_RUN: u32 = 8;
pub const KEY_ESCAPE: u32 = 9;
pub const KEY_PAGE_UP: u32 = 10;
pub const KEY_PAGE_DOWN: u32 = 11;
pub const KEY_HOME: u32 = 12;
pub const KEY_END: u32 = 13;
pub const KEY_ALL: u32 = 14;
pub const KEY_NONE: u32 = 15;
pub const KEY_SAVE: u32 = 16;
pub const KEY_TAB: u32 = 17;
pub const KEY_DEPLOY: u32 = 20;
pub const KEY_PLAN: u32 = 21;
pub const KEY_HISTORY: u32 = 22;
pub const KEY_DISCARD: u32 = 23;
pub const KEY_LAYER_1: u32 = 31;
pub const KEY_LAYER_6: u32 = 36;

/// The number of layers, in display order.
pub const LAYER_COUNT: usize = 6;

/// The layer names in display order.
pub open spec fn layer_name(k: int) -> Seq<char> {
    if k == 0 {
        "terminal"@
    } else if k == 1 {
        "shell"@
    } else if k == 2 {
        "multiplexer"@
    } else if k == 3 {
        "software"@
    } else if k == 4 {
        "enhancement"@
    } else {
        "misc"@
    }
}

/// The name of layer `k` (counting from 0) in display order.
pub fn layer_at(k: usize) -> (r: &'static str)
    requires
        k < LAYER_COUNT,
    ensures
        r@ == layer_name(k as int),
{
    proof {
        reveal_strlit("terminal");
        reveal_strlit("shell");
        reveal_strlit("multiplexer");
        reveal_strlit("software");
        reveal_strlit("enhancement");
        reveal_strlit("misc");
    }
    if k == 0 {
        "terminal"
    } else if k == 1 {
        "shell"
    } else if k == 2 {
        "multiplexer"
    } else if k == 3 {
        "software"
    } else if k == 4 {
        "enhancement"
    } else {
        "misc"
    }
}

/// One item of the demo plan.
#[derive(Debug)]
pub struct SeedItem {
    pub name: String,
    pub layer: String,
    pub action_count: usize,
    pub selected: bool,
}

/// One action line of the review screen.
#[derive(Debug)]
pub struct ReviewEntry {
    pub item_index: usize,
    pub order: usize,
    pub kind: String,
    pub kind_icon: String,
    pub severity: String,
    pub status: String,
    pub detail: String,
}

/// The demo's plan items and review entries.
#[derive(Debug)]
pub struct Seed {
    pub items: Vec<SeedItem>,
    pub review_entries: Vec<ReviewEntry>,
}

/// A row of the plan screen.
#[derive(Debug)]
pub enum PlanRow {
    Header { layer: String, ordinal: usize },
    Item(usize),
    Inline(Vec<usize>),
    Divider,
}

/// A plan row as a value.
pub enum RowV {
    Header(Seq<char>, nat),
    Item(nat),
    Inline(Seq<usize>),
    Divider,
}

/// The value of a plan row.
pub open spec fn row_view(r: PlanRow) -> RowV {
    match r {
        PlanRow::Header { layer, ordinal } => RowV::Header(layer@, ordinal as nat),
        PlanRow::Item(i) => RowV::Item(i as nat),
        PlanRow::Inline(v) => RowV::Inline(v@),
        PlanRow::Divider => RowV::Divider,
    }
}

/// The values of plan rows.
pub open spec fn rows_view(rows: Seq<PlanRow>) -> Seq<RowV> {
    Seq::new(rows.len(), |i: int| row_view(rows[i]))
}

/// The indices of the items in `layer`, in order.
pub open spec fn layer_indices(items: Seq<SeedItem>, layer: Seq<char>) -> Seq<usize>
    decreases items.len(),
{
    if items.len() == 0 {
        Seq::empty()
    } else if items.last().layer@ == layer {
        layer_indices(items.drop_last(), layer).push((items.len() - 1) as usize)
    } else {
        layer_indices(items.drop_last(), layer)
    }
}

/// `indices` in rows of at most `columns` (at least one).
pub open spec fn chunk_rows(indices: Seq<usize>, columns: nat) -> Seq<RowV>
    decreases indices.len(),
{
    if indices.len() == 0 || columns == 0 {
        Seq::empty()
    } else if indices.len() <= columns {
        seq![RowV::Inline(indices)]
    } else {
        seq![RowV::Inline(indices.take(columns as int))] + chunk_rows(indices.skip(columns as int), columns)
    }
}

/// The rows of layer `k`: nothing when it has no items; else its header,
/// then (unless collapsed) its items, one per row for the first three
/// layers or a single column, in rows of `columns` otherwise; then a
/// divider unless it is the last layer.
pub open spec fn layer_rows(items: Seq<SeedItem>, collapsed: Seq<Seq<char>>, columns: nat, k: int) -> Seq<RowV> {
    let ix = layer_indices(items, layer_name(k));
    if ix.len() == 0 {
        Seq::empty()
    } else {
        let body = if collapsed.contains(layer_name(k)) {
            Seq::empty()
        } else if k < 3 || columns == 1 {
            Seq::new(ix.len(), |i: int| RowV::Item(ix[i] as nat))
        } else {
            chunk_rows(ix, columns)
        };
        seq![RowV::Header(layer_name(k), (k + 1) as nat)] + body + (if k + 1 < 6 {
            seq![RowV::Divider]
        } else {
            Seq::empty()
        })
    }
}

/// The rows of the first `n` layers.
pub open spec fn rows_upto(items: Seq<SeedItem>, collapsed: Seq<Seq<char>>, columns: nat, n: int) -> Seq<RowV>
    decreases n,
{
    if n <= 0 {
        Seq::empty()
    } else {
        rows_upto(items, collapsed, columns, n - 1) + layer_rows(items, collapsed, columns, n - 1)
    }
}

/// The plan screen's rows.
pub open spec fn plan_rows(items: Seq<SeedItem>, collapsed: Seq<Seq<char>>, columns: nat) -> Seq<RowV> {
    rows_upto(items, collapsed, columns, 6)
}

pub(crate) fn indices_in_layer(items: &Vec<SeedItem>, layer: &str) -> (r: Vec<usize>)
    ensures
        r@ == layer_indices(items@, layer@),
{
    let mut r: Vec<usize> = Vec::new();
    let mut i: usize = 0;
    while i < items.len()
        invariant
            i <= items@.len(),
            r@ == layer_indices(items@.take(i as int), layer@),
        decreases items@.len() - i,
    {
        proof {
            assert(items@.take(i + 1).drop_last() =~= items@.take(i as int));
        }
        if str_eq(items[i].layer.as_str(), layer) {
            r.push(i);
        }
        i += 1;
    }
    proof {
        assert(items@.take(items@.len() as int) =~= items@);
    }
    r
}

fn push_chunks(rows: &mut Vec<PlanRow>, indices: &Vec<usize>, columns: usize)
    requires
        columns >= 1,
    ensures
        rows_view(final(rows)@) == rows_view(old(rows)@) + chunk_rows(indices@, columns as nat),
{
    let mut start: usize = 0;
    assert(indices@.skip(0) =~= indices@);
    while start < indices.len()
        invariant
            start <= indices@.len(),
            columns >= 1,
            rows_view(rows@) + chunk_rows(indices@.skip(start as int), columns as nat) == rows_view(old(rows)@)
                + chunk_rows(indices@, columns as nat),
        decreases indices@.len() - start,
    {
        let end = if indices.len() - start <= columns {
            indices.len()
        } else {
            start + columns
        };
        let mut chunk: Vec<usize> = Vec::new();
        let mut j = start;
        while j < end
            invariant
                start <= j <= end <= indices@.len(),
                chunk@ == indices@.subrange(start as int, j as int),
            decreases end - j,
        {
            chunk.push(indices[j]);
            proof {
                assert(indices@.subrange(start as int, j + 1) =~= indices@.subrange(start as int, j as int).push(
                    indices@[j as int],
                ));
            }
            j += 1;
        }
        let ghost before = rows@;
        let ghost rest = indices@.skip(start as int);
        rows.push(PlanRow::Inline(chunk));
        proof {
            assert(rows_view(rows@) =~= rows_view(before).push(RowV::Inline(indices@.subrange(start as int, end as int))));
            if rest.len() <= columns {
                assert(indices@.subrange(start as int, end as int) =~= rest);
                assert(indices@.skip(end as int) =~= Seq::<usize>::empty());
            } else {
                assert(indices@.subrange(start as int, end as int) =~= rest.take(columns as int));
                assert(indices@.skip(end as int) =~= rest.skip(columns as int));
            }
            assert(rows_view(before) + chunk_rows(rest, columns as nat) =~= rows_view(rows@) + chunk_rows(
                indices@.skip(end as int),
                columns as nat,
            ));
        }
        start = end;
    }
    proof {
        assert(indices@.skip(start as int) =~= Seq::<usize>::empty());
        assert(rows_view(rows@) + Seq::<RowV>::empty() =~= rows_view(rows@));
    }
}

/// The plan screen's rows for the items, the collapsed layers and the
/// number of grid columns.
pub fn build_rows(items: &Vec<SeedItem>, collapsed: &Vec<String>, columns: usize) -> (r: Vec<PlanRow>)
    requires
        columns >= 1,
    ensures
        rows_view(r@) == plan_rows(items@, str_views(collapsed@), columns as nat),
{
    let ghost cs = str_views(collapsed@);
    let mut rows: Vec<PlanRow> = Vec::new();
    let mut k: usize = 0;
    while k < LAYER_COUNT
        invariant
            k <= LAYER_COUNT,
            columns >= 1,
            cs == str_views(collapsed@),
            rows_view(rows@) == rows_upto(items@, cs, columns as nat, k as int),
        decreases LAYER_COUNT - k,
    {
        let layer = layer_at(k);
        let indices = indices_in_layer(items, layer);
        let ghost before = rows@;
        if indices.len() > 0 {
            rows.push(PlanRow::Header { layer: String::from_str(layer), ordinal: k + 1 });
            let ghost with_header = rows@;
            proof {
                assert(rows_view(with_header) =~= rows_view(before).push(RowV::Header(layer@, (k + 1) as nat)));
            }
            if !contains_str(collapsed, layer) {
                if k < 3 || columns == 1 {
                    let mut i: usize = 0;
                    while i < indices.len()
                        invariant
                            i <= indices@.len(),
                            rows_view(rows@) == rows_view(with_header) + Seq::new(
                                i as nat,
                                |m: int| RowV::Item(indices@[m] as nat),
                            ),
                        decreases indices@.len() - i,
                    {
                        let ghost prev = rows@;
                        rows.push(PlanRow::Item(indices[i]));
                        proof {
                            assert(rows_view(rows@) =~= rows_view(with_header) + Seq::new(
                                (i + 1) as nat,
                                |m: int| RowV::Item(indices@[m] as nat),
                            )) by {
                                assert(rows_view(rows@) =~= rows_view(prev).push(RowV::Item(indices@[i as int] as nat)));
                            }
                        }
                        i += 1;
                    }
                } else {
                    push_chunks(&mut rows, &indices, columns);
                }
            }
            let ghost with_body = rows@;
            if k + 1 < LAYER_COUNT {
                rows.push(PlanRow::Divider);
                proof {
                    assert(rows_view(rows@) =~= rows_view(with_body).push(RowV::Divider));
                }
            }
            proof {
                let ix = layer_indices(items@, layer_name(k as int));
                let body = if cs.contains(layer_name(k as int)) {
                    Seq::empty()
                } else if k < 3 || columns == 1 {
                    Seq::new(ix.len(), |i: int| RowV::Item(ix[i] as nat))
                } else {
                    chunk_rows(ix, columns as nat)
                };
                assert(rows_view(with_body) =~= rows_view(before) + seq![RowV::Header(layer_name(k as int), (k + 1) as nat)] + body);
                assert(rows_view(rows@) =~= rows_view(before) + layer_rows(items@, cs, columns as nat, k as int));
            }
        } else {
            proof {
                assert(layer_rows(items@, cs, columns as nat, k as int) =~= Seq::<RowV>::empty());
                assert(rows_view(rows@) =~= rows_view(before) + layer_rows(items@, cs, columns as nat, k as int));
            }
        }
        k += 1;
    }
    rows
}

/// `a - b`, or 0 when `b` is larger.
pub open spec fn sat_sub(a: int, b: int) -> nat {
    if a > b {
        (a - b) as nat
    } else {
        0
    }
}

/// The number of grid columns for a screen width.
pub open spec fn plan_columns_spec(width: u16) -> nat {
    let inner = sat_sub(width as int, 2);
    if inner < 90 {
        1
    } else if inner < 120 {
        2
    } else {
        3
    }
}

/// The number of grid columns for a screen width: one below 90 inner
/// columns, two below 120, else three.
pub fn plan_columns(width: u16) -> (r: usize)
    ensures
        r == plan_columns_spec(width),
        1 <= r <= 3,
{
    let inner = width.saturating_sub(2);
    if inner < 90 {
        1
    } else if inner < 120 {
        2
    } else {
        3
    }
}

/// The width of a grid cell: the space left after the gaps, shared by the
/// columns, at least 18.
pub open spec fn grid_cell_width_spec(width: nat, columns: nat) -> nat {
    let w = sat_sub(width as int, 4int + sat_sub(columns as int, 1) * 4);
    let share = if columns == 0 {
        18
    } else {
        w / columns
    };
    if share < 18 {
        18
    } else {
        share
    }
}

/// The width of a grid cell.
pub fn grid_cell_width(width: usize, columns: usize) -> (r: usize)
    requires
        columns <= 3,
    ensures
        r == grid_cell_width_spec(width as nat, columns as nat),
{
    let gaps = 4 + columns.saturating_sub(1) * 4;
    let w = width.saturating_sub(gaps);
    let share = if columns == 0 {
        18
    } else {
        w / columns
    };
    if share < 18 {
        18
    } else {
        share
    }
}

/// The first row shown so that row `selected` is visible in a viewport of
/// `viewport` rows out of `len`.
pub open spec fn list_offset_spec(selected: nat, len: nat, viewport: nat) -> nat {
    if len <= viewport || selected < viewport {
        0
    } else {
        let a = sat_sub(selected + 1int, viewport as int);
        let b = sat_sub(len as int, viewport as int);
        if a < b {
            a
        } else {
            b
        }
    }
}

/// The first visible row of a scrolled list.
pub fn list_offset(selected: usize, len: usize, viewport: usize) -> (r: usize)
    requires
        selected < usize::MAX,
    ensures
        r == list_offset_spec(selected as nat, len as nat, viewport as nat),
{
    if len <= viewport || selected < viewport {
        0
    } else {
        let a = (selected + 1).saturating_sub(viewport);
        let b = len.saturating_sub(viewport);
        if a < b {
            a
        } else {
            b
        }
    }
}

/// The item a plan row and grid column point at.
pub open spec fn sel_index(rows: Seq<RowV>, row: nat, col: nat) -> Option<nat> {
    if row < rows.len() {
        match rows[row as int] {
            RowV::Item(i) => Some(i),
            RowV::Inline(v) => if col < v.len() {
                Some(v[col as int] as nat)
            } else {
                None
            },
            _ => None,
        }
    } else {
        None
    }
}

/// The first row that is not a divider, if any.
pub open spec fn first_non_divider(rows: Seq<RowV>, from: int) -> Option<nat>
    decreases rows.len() - from,
{
    if from < 0 || from >= rows.len() {
        None
    } else if rows[from] !is Divider {
        Some(from as nat)
    } else {
        first_non_divider(rows, from + 1)
    }
}

/// The last row before `before` that is not a divider, if any.
pub open spec fn last_non_divider(rows: Seq<RowV>, before: int) -> Option<nat>
    decreases before,
{
    if before <= 0 || before > rows.len() {
        None
    } else if rows[before - 1] !is Divider {
        Some((before - 1) as nat)
    } else {
        last_non_divider(rows, before - 1)
    }
}

/// The focused row after clamping: kept when it is a row and not a divider,
/// else the first row that is not a divider (or 0).
pub open spec fn clamped_row(rows: Seq<RowV>, row: nat) -> nat {
    if rows.len() == 0 {
        0
    } else if row >= rows.len() || rows[row as int] is Divider {
        match first_non_divider(rows, 0) {
            Some(j) => j,
            None => 0,
        }
    } else {
        row
    }
}

/// The grid column after clamping to the focused row.
pub open spec fn clamped_col(rows: Seq<RowV>, row: nat, col: nat) -> nat {
    if rows.len() == 0 {
        col
    } else if row < rows.len() && rows[row as int] is Inline {
        let n = sat_sub(rows[row as int]->Inline_0.len() as int, 1);
        if col < n {
            col
        } else {
            n
        }
    } else {
        0
    }
}

/// The row and column after `n` moves down (or up): each move goes to the
/// next (or previous) row that is not a divider, resetting the column, and
/// stays put at the end.
pub open spec fn moved(rows: Seq<RowV>, row: nat, col: nat, down: bool, n: nat) -> (nat, nat)
    decreases n,
{
    if n == 0 {
        (row, col)
    } else {
        let (r, c) = moved(rows, row, col, down, (n - 1) as nat);
        let next = if down {
            first_non_divider(rows, r + 1int)
        } else {
            last_non_divider(rows, r as int)
        };
        match next {
            Some(j) => (j, 0),
            None => (r, c),
        }
    }
}

/// The status line for the focused item: its name and action count.
pub open spec fn focus_text(items: Seq<SeedItem>, idx: Option<nat>) -> Seq<char> {
    match idx {
        Some(i) => if i < items.len() {
            let it = items[i as int];
            if it.action_count > 1 {
                it.name@ + ": "@ + crate::text::decimal(it.action_count as nat) + " actions"@
            } else {
                it.name@ + ": 1 action"@
            }
        } else {
            Seq::empty()
        },
        None => Seq::empty(),
    }
}

/// The membership of layer names after toggling `layer`.
pub open spec fn toggled(old_set: Seq<Seq<char>>, new_set: Seq<Seq<char>>, layer: Seq<char>) -> bool {
    forall|x: Seq<char>| #[trigger] new_set.contains(x) == (if x == layer {
        !old_set.contains(layer)
    } else {
        old_set.contains(x)
    })
}

/// Toggles a layer name in a set of collapsed layers.
pub fn toggle_layer(collapsed: &mut Vec<String>, layer: &str)
    ensures
        toggled(str_views(old(collapsed)@), str_views(final(collapsed)@), layer@),
{
    let ghost o = str_views(collapsed@);
    if contains_str(collapsed, layer) {
        let mut kept: Vec<String> = Vec::new();
        let mut i: usize = 0;
        while i < collapsed.len()
            invariant
                i <= collapsed@.len(),
                o == str_views(collapsed@),
                forall|x: Seq<char>| #[trigger] str_views(kept@).contains(x) == (x != layer@ && str_views(
                    collapsed@.take(i as int),
                ).contains(x)),
            decreases collapsed@.len() - i,
        {
            let ghost before = kept@;
            if !str_eq(collapsed[i].as_str(), layer) {
                kept.push(collapsed[i].clone());
            }
            proof {
                let t0 = str_views(collapsed@.take(i as int));
                let t1 = str_views(collapsed@.take(i + 1));
                assert(t1 =~= t0.push(collapsed@[i as int]@));
                let kb = str_views(before);
                let ka = str_views(kept@);
                assert forall|x: Seq<char>| #[trigger] ka.contains(x) == (x != layer@ && t1.contains(x)) by {
                    assert(kb.contains(x) == (x != layer@ && t0.contains(x)));
                    if collapsed@[i as int]@ != layer@ {
                        assert(ka =~= kb.push(collapsed@[i as int]@));
                    } else {
                        assert(ka =~= kb);
                    }
                    if t1.contains(x) && !t0.contains(x) {
                        let w = choose|w: int| 0 <= w < t1.len() && t1[w] == x;
                        if w < i {
                            assert(t0[w] == x);
                        }
                    }
                    if t0.contains(x) {
                        let w = choose|w: int| 0 <= w < t0.len() && t0[w] == x;
                        assert(t1[w] == x);
                    }
                    if ka.contains(x) && !kb.contains(x) {
                        let w = choose|w: int| 0 <= w < ka.len() && ka[w] == x;
                        if w < kb.len() {
                            assert(kb[w] == x);
                        }
                    }
                    if kb.contains(x) {
                        let w = choose|w: int| 0 <= w < kb.len() && kb[w] == x;
                        assert(ka[w] == x);
                    }
                    assert(t1[i as int] == collapsed@[i as int]@);
                    if collapsed@[i as int]@ != layer@ {
                        assert(ka[kb.len() as int] == collapsed@[i as int]@);
                    }
                }
            }
            i += 1;
        }
        proof {
            assert(collapsed@.take(collapsed@.len() as int) =~= collapsed@);
        }
        *collapsed = kept;
    } else {
        let ghost before = collapsed@;
        collapsed.push(String::from_str(layer));
        proof {
            let n = str_views(collapsed@);
            assert(n =~= o.push(layer@));
            assert forall|x: Seq<char>| #[trigger] n.contains(x) == (if x == layer@ {
                !o.contains(layer@)
            } else {
                o.contains(x)
            }) by {
                if x == layer@ {
                    assert(n[o.len() as int] == x);
                } else if n.contains(x) {
                    let w = choose|w: int| 0 <= w < n.len() && n[w] == x;
                    assert(o[w] == x);
                } else if o.contains(x) {
                    let w = choose|w: int| 0 <= w < o.len() && o[w] == x;
                    assert(n[w] == x);
                }
            }
        }
    }
}

/// The items keep their names, layers and action counts.
pub open spec fn same_items(a: Seq<SeedItem>, b: Seq<SeedItem>) -> bool {
    &&& a.len() == b.len()
    &&& forall|j: int|
        0 <= j < a.len() ==> #[trigger] b[j].name == a[j].name && b[j].layer == a[j].layer && b[j].action_count
            == a[j].action_count
}

/// The number of selected items.
pub open spec fn selected_count_spec(items: Seq<SeedItem>) -> nat
    decreases items.len(),
{
    if items.len() == 0 {
        0
    } else {
        selected_count_spec(items.drop_last()) + (if items.last().selected {
            1nat
        } else {
            0nat
        })
    }
}

/// The number of actions of the selected items.
pub open spec fn selected_actions_spec(items: Seq<SeedItem>) -> nat
    decreases items.len(),
{
    if items.len() == 0 {
        0
    } else {
        selected_actions_spec(items.drop_last()) + (if items.last().selected {
            items.last().action_count as nat
        } else {
            0nat
        })
    }
}

proof fn lemma_selected_count_le(items: Seq<SeedItem>)
    ensures
        selected_count_spec(items) <= items.len(),
    decreases items.len(),
{
    if items.len() > 0 {
        lemma_selected_count_le(items.drop_last());
    }
}

/// The state of the demo.
#[derive(Debug)]
pub struct DemoState {
    pub screen: u32,
    pub index: u32,
    pub parent_index: u32,
    pub run_step: u32,
    pub run_scroll: usize,
    pub run_filter: u32,
    pub run_folded: bool,
    pub run_aborting: bool,
    pub run_aborted: bool,
    pub history_count: u32,
    pub replay_count: u32,
    pub replay_expanded: bool,
    pub seed: Seed,
    pub saved_selection: Vec<bool>,
    pub plan_row: usize,
    pub grid_col: usize,
    /// The collapsed layers, by name.
    pub collapsed: Vec<String>,
    pub dirty: bool,
    pub exit_pending: bool,
    pub status: String,
    pub review_scroll: usize,
    pub width: u16,
    pub height: u16,
}

impl Default for DemoState {
    fn default() -> (r: Self)
        ensures
            r.screen == SCREEN_MAIN && r.index == 0 && r.parent_index == 0 && r.run_step == 0,
            r.run_scroll == 0 && r.run_filter == 0 && !r.run_folded && !r.run_aborting && !r.run_aborted,
            r.history_count == 1 && r.replay_count == 1 && !r.replay_expanded,
            r.seed.items@.len() == 0 && r.seed.review_entries@.len() == 0,
            r.saved_selection@.len() == 0 && r.plan_row == 0 && r.grid_col == 0,
            r.collapsed@.len() == 0 && !r.dirty && !r.exit_pending && r.status@.len() == 0,
            r.review_scroll == 0 && r.width == 160 && r.height == 40,
    {
        DemoState {
            screen: SCREEN_MAIN,
            index: 0,
            parent_index: 0,
            run_step: 0,
            run_scroll: 0,
            run_filter: 0,
            run_folded: false,
            run_aborting: false,
            run_aborted: false,
            history_count: 1,
            replay_count: 1,
            replay_expanded: false,
            seed: Seed { items: Vec::new(), review_entries: Vec::new() },
            saved_selection: Vec::new(),
            plan_row: 0,
            grid_col: 0,
            collapsed: Vec::new(),
            dirty: false,
            exit_pending: false,
            status: String::new(),
            review_scroll: 0,
            width: 160,
            height: 40,
        }
    }
}

/// An index as a mathematical value.
pub open spec fn opt_nat(o: Option<usize>) -> Option<nat> {
    match o {
        Some(i) => Some(i as nat),
        None => None,
    }
}

/// The items hold the same layers.
pub open spec fn same_layers(a: Seq<SeedItem>, b: Seq<SeedItem>) -> bool {
    a.len() == b.len() && forall|j: int| 0 <= j < a.len() ==> #[trigger] b[j].layer == a[j].layer
}

proof fn lemma_layer_indices_same(a: Seq<SeedItem>, b: Seq<SeedItem>, layer: Seq<char>)
    requires
        same_layers(a, b),
    ensures
        layer_indices(a, layer) == layer_indices(b, layer),
    decreases a.len(),
{
    if a.len() > 0 {
        assert(same_layers(a.drop_last(), b.drop_last())) by {
            assert forall|j: int| 0 <= j < a.len() - 1 implies #[trigger] b.drop_last()[j].layer == a.drop_last()[j].layer by {
                assert(b[j].layer == a[j].layer);
            }
        }
        lemma_layer_indices_same(a.drop_last(), b.drop_last(), layer);
        assert(b.last().layer == a.last().layer);
    }
}

/// The plan rows depend on the items only through their layers.
proof fn lemma_rows_same(a: Seq<SeedItem>, b: Seq<SeedItem>, c: Seq<Seq<char>>, columns: nat, n: int)
    requires
        same_layers(a, b),
    ensures
        rows_upto(a, c, columns, n) == rows_upto(b, c, columns, n),
    decreases n,
{
    if n > 0 {
        lemma_rows_same(a, b, c, columns, n - 1);
        lemma_layer_indices_same(a, b, layer_name(n - 1));
    }
}

/// The plan rows depend on the collapsed layers only through membership.
proof fn lemma_rows_same_collapsed(items: Seq<SeedItem>, c: Seq<Seq<char>>, d: Seq<Seq<char>>, columns: nat, n: int)
    requires
        forall|x: Seq<char>| #[trigger] c.contains(x) == d.contains(x),
    ensures
        rows_upto(items, c, columns, n) == rows_upto(items, d, columns, n),
    decreases n,
{
    if n > 0 {
        lemma_rows_same_collapsed(items, c, d, columns, n - 1);
        assert(c.contains(layer_name(n - 1)) == d.contains(layer_name(n - 1)));
    }
}

/// A move of the plan focus by `amount` rows down (or up), the status line
/// following the focus.
pub open spec fn move_next(o: DemoState, n: DemoState, down: bool, amount: nat) -> bool {
    &&& (n.plan_row as nat, n.grid_col as nat) == moved(
        o.rows_spec(),
        o.plan_row as nat,
        o.grid_col as nat,
        down,
        amount,
    )
    &&& n.status@ == focus_text(o.seed.items@, n.focus_spec())
    &&& n == (DemoState { plan_row: n.plan_row, grid_col: n.grid_col, status: n.status, ..o })
}

/// A toggle of what the plan focus is on: a layer header collapses or
/// expands its layer (the focus kept on a row); an item flips its selection
/// and marks the selection unsaved. The status line follows the focus.
pub open spec fn toggle_next(o: DemoState, n: DemoState) -> bool {
    let rows = o.rows_spec();
    let row = o.plan_row as int;
    if 0 <= row < rows.len() && rows[row] is Header {
        &&& toggled(str_views(o.collapsed@), str_views(n.collapsed@), rows[row]->Header_0)
        &&& n.plan_row == clamped_row(n.rows_spec(), o.plan_row as nat)
        &&& n.grid_col == clamped_col(n.rows_spec(), n.plan_row as nat, o.grid_col as nat)
        &&& n.status@ == focus_text(o.seed.items@, n.focus_spec())
        &&& n == (DemoState {
            collapsed: n.collapsed,
            plan_row: n.plan_row,
            grid_col: n.grid_col,
            status: n.status,
            ..o
        })
    } else {
        &&& match o.focus_spec() {
            Some(i) => if i < o.seed.items@.len() {
                flipped(o.seed.items@, n.seed.items@, i as int) && n.dirty
            } else {
                n.seed.items == o.seed.items && n.dirty == o.dirty
            },
            None => n.seed.items == o.seed.items && n.dirty == o.dirty,
        }
        &&& n.status@ == focus_text(n.seed.items@, o.focus_spec())
        &&& n == (DemoState {
            seed: Seed { items: n.seed.items, review_entries: o.seed.review_entries },
            dirty: n.dirty,
            status: n.status,
            ..o
        })
    }
}

impl DemoState {
    /// The rows of the plan screen.
    pub open spec fn rows_spec(&self) -> Seq<RowV> {
        plan_rows(self.seed.items@, str_views(self.collapsed@), plan_columns_spec(self.width))
    }

    /// The item the plan focus points at.
    pub open spec fn focus_spec(&self) -> Option<nat> {
        sel_index(self.rows_spec(), self.plan_row as nat, self.grid_col as nat)
    }

    /// The rows of the plan screen.
    pub fn rows(&self) -> (r: Vec<PlanRow>)
        ensures
            rows_view(r@) == self.rows_spec(),
    {
        build_rows(&self.seed.items, &self.collapsed, plan_columns(self.width))
    }

    /// The item the plan focus points at, if any.
    pub fn selected_item_index(&self) -> (r: Option<usize>)
        ensures
            opt_nat(r) == self.focus_spec(),
    {
        let rows = self.rows();
        if self.plan_row < rows.len() {
            proof {
                assert(rows_view(rows@)[self.plan_row as int] == row_view(rows@[self.plan_row as int]));
            }
            match &rows[self.plan_row] {
                PlanRow::Item(i) => Some(*i),
                PlanRow::Inline(v) => {
                    if self.grid_col < v.len() {
                        Some(v[self.grid_col])
                    } else {
                        None
                    }
                },
                _ => None,
            }
        } else {
            None
        }
    }

    fn first_row(rows: &Vec<PlanRow>) -> (r: usize)
        ensures
            r == match first_non_divider(rows_view(rows@), 0) {
                Some(j) => j,
                None => 0,
            },
    {
        let ghost rv = rows_view(rows@);
        let mut i: usize = 0;
        while i < rows.len()
            invariant
                i <= rows@.len(),
                rv == rows_view(rows@),
                first_non_divider(rv, 0) == first_non_divider(rv, i as int),
            decreases rows@.len() - i,
        {
            assert(rv[i as int] == row_view(rows@[i as int]));
            if !matches!(rows[i], PlanRow::Divider) {
                return i;
            }
            i += 1;
        }
        0
    }

    /// Keeps the plan focus on a row that is not a divider, and the grid
    /// column within the focused row.
    pub fn clamp_plan_focus(&mut self)
        ensures
            final(self).plan_row == clamped_row(old(self).rows_spec(), old(self).plan_row as nat),
            final(self).grid_col == clamped_col(
                old(self).rows_spec(),
                final(self).plan_row as nat,
                old(self).grid_col as nat,
            ),
            *final(self) == (DemoState { plan_row: final(self).plan_row, grid_col: final(self).grid_col, ..*old(self) }),
    {
        let rows = self.rows();
        let ghost rv = rows_view(rows@);
        if rows.len() == 0 {
            self.plan_row = 0;
            return;
        }
        let on_divider = self.plan_row < rows.len() && matches!(rows[self.plan_row], PlanRow::Divider);
        proof {
            if self.plan_row < rows.len() {
                assert(rv[self.plan_row as int] == row_view(rows@[self.plan_row as int]));
            }
        }
        if self.plan_row >= rows.len() || on_divider {
            self.plan_row = Self::first_row(&rows);
        }
        proof {
            let fr = first_non_divider(rv, 0);
            lemma_first_non_divider_bound(rv, 0);
            assert(self.plan_row < rows@.len());
            assert(rv[self.plan_row as int] == row_view(rows@[self.plan_row as int]));
        }
        match &rows[self.plan_row] {
            PlanRow::Inline(v) => {
                let n = v.len().saturating_sub(1);
                if self.grid_col >= n {
                    self.grid_col = n;
                }
            },
            _ => {
                self.grid_col = 0;
            },
        }
    }

    /// The status line for the focused item.
    pub fn update_focus_status(&mut self)
        ensures
            final(self).status@ == focus_text(old(self).seed.items@, old(self).focus_spec()),
            *final(self) == (DemoState { status: final(self).status, ..*old(self) }),
    {
        let idx = self.selected_item_index();
        self.status = match idx {
            Some(i) => {
                if i < self.seed.items.len() {
                    let item = &self.seed.items[i];
                    let mut s = item.name.clone();
                    if item.action_count > 1 {
                        s.append(": ");
                        s.append(crate::text::string_of(crate::text::decimal_chars(item.action_count as u64).as_slice()).as_str());
                        s.append(" actions");
                    } else {
                        s.append(": 1 action");
                    }
                    s
                } else {
                    String::new()
                }
            },
            None => String::new(),
        };
    }

    fn step_target(rows: &Vec<PlanRow>, row: usize, down: bool) -> (r: Option<usize>)
        ensures
            opt_nat(r) == (if down {
                first_non_divider(rows_view(rows@), row + 1int)
            } else {
                last_non_divider(rows_view(rows@), row as int)
            }),
    {
        let ghost rv = rows_view(rows@);
        if down {
            if row >= rows.len() {
                return None;
            }
            let mut i: usize = row + 1;
            while i < rows.len()
                invariant
                    down,
                    row + 1 <= i <= rows@.len(),
                    rv == rows_view(rows@),
                    first_non_divider(rv, row + 1int) == first_non_divider(rv, i as int),
                decreases rows@.len() - i,
            {
                assert(rv[i as int] == row_view(rows@[i as int]));
                if !matches!(rows[i], PlanRow::Divider) {
                    assert(first_non_divider(rv, i as int) == Some(i as nat));
                    return Some(i);
                }
                i += 1;
            }
            None
        } else {
            if row > rows.len() {
                return None;
            }
            let mut i: usize = row;
            while i > 0
                invariant
                    !down,
                    i <= row <= rows@.len(),
                    rv == rows_view(rows@),
                    last_non_divider(rv, row as int) == last_non_divider(rv, i as int),
                decreases i,
            {
                assert(rv[i - 1] == row_view(rows@[i - 1]));
                if !matches!(rows[i - 1], PlanRow::Divider) {
                    assert(last_non_divider(rv, i as int) == Some((i - 1) as nat));
                    return Some(i - 1);
                }
                i -= 1;
            }
            None
        }
    }

    /// Moves the plan focus `amount` rows down (or up), skipping dividers,
    /// and updates the status line.
    pub fn move_plan(&mut self, down: bool, amount: usize)
        ensures
            move_next(*old(self), *final(self), down, amount as nat),
    {
        let rows = self.rows();
        let ghost rv = rows_view(rows@);
        let mut n: usize = 0;
        while n < amount
            invariant
                n <= amount,
                rv == rows_view(rows@),
                rv == old(self).rows_spec(),
                (self.plan_row as nat, self.grid_col as nat) == moved(
                    rv,
                    old(self).plan_row as nat,
                    old(self).grid_col as nat,
                    down,
                    n as nat,
                ),
                *self == (DemoState { plan_row: self.plan_row, grid_col: self.grid_col, ..*old(self) }),
            decreases amount - n,
        {
            match Self::step_target(&rows, self.plan_row, down) {
                Some(c) => {
                    self.plan_row = c;
                    self.grid_col = 0;
                },
                None => {},
            }
            n += 1;
        }
        self.update_focus_status();
    }
}

proof fn lemma_first_non_divider_bound(rows: Seq<RowV>, from: int)
    ensures
        first_non_divider(rows, from) matches Some(j) ==> from <= j < rows.len() && rows[j as int] !is Divider,
    decreases rows.len() - from,
{
    if 0 <= from < rows.len() && rows[from] is Divider {
        lemma_first_non_divider_bound(rows, from + 1);
    }
}

/// `b` is `a` with the selection of item `i` flipped.
pub open spec fn flipped(a: Seq<SeedItem>, b: Seq<SeedItem>, i: int) -> bool {
    &&& same_items(a, b)
    &&& forall|j: int| 0 <= j < a.len() ==> #[trigger] b[j].selected == (if j == i {
        !a[j].selected
    } else {
        a[j].selected
    })
}

/// `b` is `a` with every item's selection set to `v`.
pub open spec fn all_set(a: Seq<SeedItem>, b: Seq<SeedItem>, v: bool) -> bool {
    &&& same_items(a, b)
    &&& forall|j: int| 0 <= j < a.len() ==> #[trigger] b[j].selected == v
}

/// `b` is `a` with the selections taken from `saved` where it has one.
pub open spec fn restored(a: Seq<SeedItem>, b: Seq<SeedItem>, saved: Seq<bool>) -> bool {
    &&& same_items(a, b)
    &&& forall|j: int| 0 <= j < a.len() ==> #[trigger] b[j].selected == (if j < saved.len() {
        saved[j]
    } else {
        a[j].selected
    })
}

/// The selections of the items.
pub open spec fn selections(items: Seq<SeedItem>) -> Seq<bool> {
    Seq::new(items.len(), |j: int| items[j].selected)
}

proof fn lemma_same_items_layers(a: Seq<SeedItem>, b: Seq<SeedItem>)
    requires
        same_items(a, b),
    ensures
        same_layers(a, b),
{
    assert forall|j: int| 0 <= j < a.len() implies #[trigger] b[j].layer == a[j].layer by {
        assert(b[j].name == a[j].name);
    }
}

fn with_selected(it: SeedItem, v: bool) -> (r: SeedItem)
    ensures
        r.name == it.name && r.layer == it.layer && r.action_count == it.action_count && r.selected == v,
{
    SeedItem { selected: v, ..it }
}

fn set_selected(items: &mut Vec<SeedItem>, i: usize, v: bool)
    requires
        i < old(items)@.len(),
    ensures
        same_items(old(items)@, final(items)@),
        forall|j: int| 0 <= j < old(items)@.len() ==> #[trigger] final(items)@[j].selected == (if j == i {
            v
        } else {
            old(items)@[j].selected
        }),
{
    let ghost before = items@;
    let it = items.remove(i);
    items.insert(i, with_selected(it, v));
    proof {
        assert forall|j: int| 0 <= j < before.len() implies #[trigger] items@[j].name == before[j].name
            && items@[j].layer == before[j].layer && items@[j].action_count == before[j].action_count by {
            if j < i {
                assert(items@[j] == before[j]);
            } else if j > i {
                assert(items@[j] == before[j]);
            }
        }
        assert forall|j: int| 0 <= j < before.len() implies #[trigger] items@[j].selected == (if j == i {
            v
        } else {
            before[j].selected
        }) by {
            if j != i {
                assert(items@[j] == before[j]);
            }
        }
    }
}

impl DemoState {
    /// Toggles what the focus is on: a layer header collapses or expands its
    /// layer (keeping the focus on a row); an item flips its selection and
    /// marks the selection unsaved. The status line follows the focus.
    pub fn toggle_current(&mut self)
        ensures
            toggle_next(*old(self), *final(self)),
    {
        let rows = self.rows();
        let ghost rv = rows_view(rows@);
        let header_layer: Option<String> = if self.plan_row < rows.len() {
            proof {
                assert(rv[self.plan_row as int] == row_view(rows@[self.plan_row as int]));
            }
            match &rows[self.plan_row] {
                PlanRow::Header { layer, .. } => Some(layer.clone()),
                _ => None,
            }
        } else {
            None
        };
        match header_layer {
            Some(layer) => {
                toggle_layer(&mut self.collapsed, layer.as_str());
                self.clamp_plan_focus();
                self.update_focus_status();
            },
            None => {
                let ghost before = *self;
                match self.selected_item_index() {
                    Some(i) => {
                        if i < self.seed.items.len() {
                            let v = !self.seed.items[i].selected;
                            set_selected(&mut self.seed.items, i, v);
                            self.dirty = true;
                            proof {
                                lemma_same_items_layers(before.seed.items@, self.seed.items@);
                                lemma_rows_same(before.seed.items@, self.seed.items@, str_views(self.collapsed@),
                                    plan_columns_spec(self.width), 6);
                            }
                        }
                    },
                    None => {},
                }
                self.update_focus_status();
            },
        }
    }

    /// The number of selected items and of their actions.
    pub fn selected_counts(&self) -> (r: (usize, usize))
        requires
            selected_actions_spec(self.seed.items@) <= usize::MAX,
        ensures
            r.0 == selected_count_spec(self.seed.items@),
            r.1 == selected_actions_spec(self.seed.items@),
    {
        let items = &self.seed.items;
        let mut n: usize = 0;
        let mut a: usize = 0;
        let mut i: usize = 0;
        while i < items.len()
            invariant
                i <= items@.len(),
                n == selected_count_spec(items@.take(i as int)),
                a == selected_actions_spec(items@.take(i as int)),
                selected_actions_spec(items@) <= usize::MAX,
            decreases items@.len() - i,
        {
            proof {
                assert(items@.take(i + 1).drop_last() =~= items@.take(i as int));
                lemma_selected_count_le(items@.take(i as int));
                lemma_selected_actions_prefix(items@, i + 1);
            }
            if items[i].selected {
                n = n + 1;
                a = a + items[i].action_count;
            }
            i += 1;
        }
        proof {
            assert(items@.take(items@.len() as int) =~= items@);
        }
        (n, a)
    }

    /// The number of selected items.
    pub fn selected_count(&self) -> (r: usize)
        ensures
            r == selected_count_spec(self.seed.items@),
    {
        let items = &self.seed.items;
        let mut n: usize = 0;
        let mut i: usize = 0;
        while i < items.len()
            invariant
                i <= items@.len(),
                n == selected_count_spec(items@.take(i as int)),
            decreases items@.len() - i,
        {
            proof {
                assert(items@.take(i + 1).drop_last() =~= items@.take(i as int));
                lemma_selected_count_le(items@.take(i as int));
            }
            if items[i].selected {
                n = n + 1;
            }
            i += 1;
        }
        proof {
            assert(items@.take(items@.len() as int) =~= items@);
        }
        n
    }

    /// Remembers the current selection as saved.
    pub fn save_selection(&mut self)
        ensures
            final(self).saved_selection@ == selections(old(self).seed.items@),
            *final(self) == (DemoState { saved_selection: final(self).saved_selection, dirty: false, ..*old(self) }),
    {
        let mut saved: Vec<bool> = Vec::new();
        let mut i: usize = 0;
        while i < self.seed.items.len()
            invariant
                i <= self.seed.items@.len(),
                saved@ == selections(self.seed.items@).take(i as int),
            decreases self.seed.items@.len() - i,
        {
            saved.push(self.seed.items[i].selected);
            proof {
                assert(saved@ =~= selections(self.seed.items@).take(i + 1));
            }
            i += 1;
        }
        proof {
            assert(selections(self.seed.items@).take(i as int) =~= selections(self.seed.items@));
        }
        self.saved_selection = saved;
        self.dirty = false;
    }

    /// Puts back the saved selection.
    pub fn restore_saved_selection(&mut self)
        ensures
            restored(old(self).seed.items@, final(self).seed.items@, old(self).saved_selection@),
            *final(self) == (DemoState {
                seed: Seed { items: final(self).seed.items, review_entries: old(self).seed.review_entries },
                dirty: false,
                ..*old(self)
            }),
    {
        let ghost before = self.seed.items@;
        let mut i: usize = 0;
        while i < self.seed.items.len() && i < self.saved_selection.len()
            invariant
                i <= self.seed.items@.len(),
                same_items(before, self.seed.items@),
                self.saved_selection == old(self).saved_selection,
                forall|j: int| 0 <= j < before.len() ==> #[trigger] self.seed.items@[j].selected == (if j < i
                    && j < self.saved_selection@.len() {
                    self.saved_selection@[j]
                } else {
                    before[j].selected
                }),
                *self == (DemoState {
                    seed: Seed { items: self.seed.items, review_entries: old(self).seed.review_entries },
                    ..*old(self)
                }),
            decreases self.seed.items@.len() - i,
        {
            let v = self.saved_selection[i];
            let ghost prev = self.seed.items@;
            set_selected(&mut self.seed.items, i, v);
            i += 1;
        }
        self.dirty = false;
    }
}

proof fn lemma_selected_actions_prefix(items: Seq<SeedItem>, n: int)
    requires
        0 <= n <= items.len(),
    ensures
        selected_actions_spec(items.take(n)) <= selected_actions_spec(items),
    decreases items.len() - n,
{
    if n < items.len() {
        lemma_selected_actions_prefix(items, n + 1);
        assert(items.take(n + 1).drop_last() =~= items.take(n));
    } else {
        assert(items.take(n) =~= items);
    }
}

/// The plan screen opened in `mode` (0: deploy, 1: plan only).
pub open spec fn opened(o: DemoState, n: DemoState, mode: u32) -> bool {
    &&& n.status@.len() == 0
    &&& n == (DemoState {
        parent_index: mode,
        screen: SCREEN_PLAN,
        plan_row: 0,
        grid_col: 0,
        status: n.status,
        ..o
    })
}

/// The main menu's response to a key.
pub open spec fn main_next(o: DemoState, n: DemoState, key: u32) -> bool {
    if key == KEY_UP {
        n == (DemoState { index: sat_sub(o.index as int, 1) as u32, ..o })
    } else if key == KEY_DOWN {
        n == (DemoState { index: if o.index + 1 < 3 { (o.index + 1) as u32 } else { 3 }, ..o })
    } else if key == KEY_PAGE_UP || key == KEY_HOME {
        n == (DemoState { index: 0, ..o })
    } else if key == KEY_PAGE_DOWN || key == KEY_END {
        n == (DemoState { index: 3, ..o })
    } else if key == KEY_ENTER {
        if o.index == 0 || o.index == 1 {
            opened(o, n, o.index)
        } else if o.index == 2 {
            n == (DemoState { screen: SCREEN_HISTORY, index: 0, ..o })
        } else if o.index == 3 {
            n == (DemoState { index: 0, ..o })
        } else {
            n == o
        }
    } else if key == KEY_DEPLOY {
        opened(o, n, 0)
    } else if key == KEY_PLAN {
        opened(o, n, 1)
    } else if key == KEY_HISTORY {
        n == (DemoState { screen: SCREEN_HISTORY, index: 0, ..o })
    } else {
        n == o
    }
}

impl DemoState {
    /// The counters that keys and ticks advance have room to do so.
    pub open spec fn counters_ok(&self) -> bool {
        &&& self.index < u32::MAX
        &&& self.run_filter < u32::MAX
        &&& self.run_step < u32::MAX
        &&& self.grid_col < usize::MAX
        &&& self.plan_row < usize::MAX
    }

    /// Opens the plan screen in `mode` (0: deploy, 1: plan only).
    pub fn open_plan(&mut self, mode: u32)
        ensures
            opened(*old(self), *final(self), mode),
    {
        self.parent_index = mode;
        self.screen = SCREEN_PLAN;
        self.plan_row = 0;
        self.grid_col = 0;
        self.status = String::new();
    }

    /// The main menu: move between its four entries, open the deploy or
    /// plan screen, or the history.
    pub fn input_main(&mut self, key: u32)
        requires
            old(self).index < u32::MAX,
        ensures
            main_next(*old(self), *final(self), key),
    {
        if key == KEY_UP {
            self.index = self.index.saturating_sub(1);
        } else if key == KEY_DOWN {
            self.index = if self.index + 1 < 3 { self.index + 1 } else { 3 };
        } else if key == KEY_PAGE_UP || key == KEY_HOME {
            self.index = 0;
        } else if key == KEY_PAGE_DOWN || key == KEY_END {
            self.index = 3;
        } else if key == KEY_ENTER {
            if self.index == 0 || self.index == 1 {
                let mode = self.index;
                self.open_plan(mode);
            } else if self.index == 2 {
                self.screen = SCREEN_HISTORY;
                self.index = 0;
            } else if self.index == 3 {
                self.index = 0;
            }
        } else if key == KEY_DEPLOY {
            self.open_plan(0);
        } else if key == KEY_PLAN {
            self.open_plan(1);
        } else if key == KEY_HISTORY {
            self.screen = SCREEN_HISTORY;
            self.index = 0;
        }
    }
}

pub const MSG_SAVED: &'static str = "saved selection in this demo session";
pub const MSG_READ_ONLY: &'static str = "plan mode is read-only; choose deploy to run";
pub const MSG_NOTHING_SELECTED: &'static str = "nothing selected";
pub const MSG_UNSAVED: &'static str = "Unsaved selection changes  [S] Save  [D] Discard  [Esc] Cancel";

/// The focus put on row `row`, clamped, with the status following it.
pub open spec fn focused_at(o: DemoState, n: DemoState, row: nat) -> bool {
    &&& n.plan_row == clamped_row(o.rows_spec(), row)
    &&& n.grid_col == clamped_col(o.rows_spec(), n.plan_row as nat, o.grid_col as nat)
    &&& n.status@ == focus_text(o.seed.items@, n.focus_spec())
    &&& n == (DemoState { plan_row: n.plan_row, grid_col: n.grid_col, status: n.status, ..o })
}

/// A layer collapsed or expanded by name, the focus kept on a row.
pub open spec fn layer_toggled(o: DemoState, n: DemoState, layer: Seq<char>) -> bool {
    &&& toggled(str_views(o.collapsed@), str_views(n.collapsed@), layer)
    &&& n.plan_row == clamped_row(n.rows_spec(), o.plan_row as nat)
    &&& n.grid_col == clamped_col(n.rows_spec(), n.plan_row as nat, o.grid_col as nat)
    &&& n == (DemoState { collapsed: n.collapsed, plan_row: n.plan_row, grid_col: n.grid_col, ..o })
}

/// The plan screen's response to a key. With unsaved changes pending a
/// decision, only save, discard and cancel act.
pub open spec fn plan_next(o: DemoState, n: DemoState, key: u32) -> bool {
    let rows = o.rows_spec();
    if o.exit_pending {
        if key == KEY_SAVE {
            &&& n.saved_selection@ == selections(o.seed.items@)
            &&& n == (DemoState {
                saved_selection: n.saved_selection,
                dirty: false,
                exit_pending: false,
                screen: SCREEN_MAIN,
                index: o.parent_index,
                ..o
            })
        } else if key == KEY_DISCARD {
            &&& restored(o.seed.items@, n.seed.items@, o.saved_selection@)
            &&& n == (DemoState {
                seed: Seed { items: n.seed.items, review_entries: o.seed.review_entries },
                dirty: false,
                exit_pending: false,
                screen: SCREEN_MAIN,
                index: o.parent_index,
                ..o
            })
        } else if key == KEY_ESCAPE {
            n.status@.len() == 0 && n == (DemoState { exit_pending: false, status: n.status, ..o })
        } else {
            n == o
        }
    } else if key == KEY_UP {
        move_next(o, n, false, 1)
    } else if key == KEY_DOWN {
        move_next(o, n, true, 1)
    } else if key == KEY_PAGE_UP {
        move_next(o, n, false, 8)
    } else if key == KEY_PAGE_DOWN {
        move_next(o, n, true, 8)
    } else if key == KEY_HOME {
        focused_at(o, n, 0)
    } else if key == KEY_END {
        focused_at(
            o,
            n,
            match last_non_divider(rows, rows.len() as int) {
                Some(j) => j,
                None => 0,
            },
        )
    } else if key == KEY_LEFT {
        n == (DemoState { grid_col: sat_sub(o.grid_col as int, 1) as usize, ..o })
    } else if key == KEY_RIGHT {
        &&& n.grid_col == (if o.plan_row < rows.len() && rows[o.plan_row as int] is Inline {
            let last = sat_sub(rows[o.plan_row as int]->Inline_0.len() as int, 1);
            if o.grid_col + 1 < last {
                (o.grid_col + 1) as usize
            } else {
                last as usize
            }
        } else {
            o.grid_col
        })
        &&& n.status@ == focus_text(o.seed.items@, n.focus_spec())
        &&& n == (DemoState { grid_col: n.grid_col, status: n.status, ..o })
    } else if key == KEY_ENTER || key == KEY_SPACE {
        toggle_next(o, n)
    } else if key == KEY_ALL || key == KEY_NONE {
        if exists|j: int| 0 <= j < o.seed.items@.len() && (#[trigger] o.seed.items@[j]).selected != (key == KEY_ALL) {
            &&& all_set(o.seed.items@, n.seed.items@, key == KEY_ALL)
            &&& n == (DemoState {
                seed: Seed { items: n.seed.items, review_entries: o.seed.review_entries },
                dirty: true,
                ..o
            })
        } else {
            n == o
        }
    } else if key == KEY_SAVE {
        &&& n.saved_selection@ == selections(o.seed.items@)
        &&& n.status@ == MSG_SAVED@
        &&& n == (DemoState { saved_selection: n.saved_selection, dirty: false, status: n.status, ..o })
    } else if KEY_LAYER_1 <= key <= KEY_LAYER_6 {
        layer_toggled(o, n, layer_name(key - KEY_LAYER_1))
    } else if key == KEY_RUN {
        if o.parent_index == 1 {
            n.status@ == MSG_READ_ONLY@ && n == (DemoState { status: n.status, ..o })
        } else if selected_count_spec(o.seed.items@) == 0 {
            n.status@ == MSG_NOTHING_SELECTED@ && n == (DemoState { status: n.status, ..o })
        } else {
            n.status@.len() == 0 && n == (DemoState {
                screen: SCREEN_REVIEW,
                review_scroll: 0,
                status: n.status,
                ..o
            })
        }
    } else if key == KEY_BACK || key == KEY_ESCAPE {
        if o.dirty {
            n.status@ == MSG_UNSAVED@ && n == (DemoState { exit_pending: true, status: n.status, ..o })
        } else {
            n == (DemoState { screen: SCREEN_MAIN, index: o.parent_index, ..o })
        }
    } else {
        n == o
    }
}

fn set_all_selected(items: &mut Vec<SeedItem>, v: bool)
    ensures
        all_set(old(items)@, final(items)@, v),
{
    let ghost before = items@;
    let mut i: usize = 0;
    while i < items.len()
        invariant
            i <= items@.len(),
            same_items(before, items@),
            forall|j: int| 0 <= j < before.len() ==> #[trigger] items@[j].selected == (if j < i {
                v
            } else {
                before[j].selected
            }),
        decreases items@.len() - i,
    {
        set_selected(items, i, v);
        i += 1;
    }
}

impl DemoState {
    /// The plan screen: move the focus, toggle items and layers, select all
    /// or none, save, go on to the review, or leave (asking first when the
    /// selection is unsaved).
    pub fn input_plan(&mut self, key: u32)
        requires
            old(self).grid_col < usize::MAX,
        ensures
            plan_next(*old(self), *final(self), key),
    {
        if self.exit_pending {
            if key == KEY_SAVE {
                self.save_selection();
                self.exit_pending = false;
                self.screen = SCREEN_MAIN;
                self.index = self.parent_index;
            } else if key == KEY_DISCARD {
                self.exit_pending = false;
                self.restore_saved_selection();
                self.screen = SCREEN_MAIN;
                self.index = self.parent_index;
            } else if key == KEY_ESCAPE {
                self.exit_pending = false;
                self.status = String::new();
            }
            return;
        }
        if key == KEY_UP {
            self.move_plan(false, 1);
        } else if key == KEY_DOWN {
            self.move_plan(true, 1);
        } else if key == KEY_PAGE_UP {
            self.move_plan(false, 8);
        } else if key == KEY_PAGE_DOWN {
            self.move_plan(true, 8);
        } else if key == KEY_HOME {
            self.plan_row = 0;
            self.clamp_plan_focus();
            self.update_focus_status();
        } else if key == KEY_END {
            let rows = self.rows();
            let last = Self::step_target(&rows, rows.len(), false);
            self.plan_row = match last {
                Some(j) => j,
                None => 0,
            };
            self.clamp_plan_focus();
            self.update_focus_status();
        } else if key == KEY_LEFT {
            self.grid_col = self.grid_col.saturating_sub(1);
        } else if key == KEY_RIGHT {
            let rows = self.rows();
            let ghost rv = rows_view(rows@);
            if self.plan_row < rows.len() {
                proof {
                    assert(rv[self.plan_row as int] == row_view(rows@[self.plan_row as int]));
                }
                match &rows[self.plan_row] {
                    PlanRow::Inline(v) => {
                        let last = v.len().saturating_sub(1);
                        self.grid_col = if self.grid_col + 1 < last {
                            self.grid_col + 1
                        } else {
                            last
                        };
                    },
                    _ => {},
                }
            }
            self.update_focus_status();
        } else if key == KEY_ENTER || key == KEY_SPACE {
            self.toggle_current();
        } else if key == KEY_ALL || key == KEY_NONE {
            let v = key == KEY_ALL;
            let mut differs = false;
            let mut i: usize = 0;
            while i < self.seed.items.len()
                invariant
                    i <= self.seed.items@.len(),
                    differs == exists|j: int| 0 <= j < i && (#[trigger] self.seed.items@[j]).selected != v,
                decreases self.seed.items@.len() - i,
            {
                if self.seed.items[i].selected != v {
                    differs = true;
                }
                i += 1;
            }
            if differs {
                set_all_selected(&mut self.seed.items, v);
                self.dirty = true;
            }
        } else if key == KEY_SAVE {
            self.save_selection();
            self.status = String::from_str(MSG_SAVED);
        } else if KEY_LAYER_1 <= key && key <= KEY_LAYER_6 {
            let layer = layer_at((key - KEY_LAYER_1) as usize);
            toggle_layer(&mut self.collapsed, layer);
            self.clamp_plan_focus();
        } else if key == KEY_RUN {
            if self.parent_index == 1 {
                self.status = String::from_str(MSG_READ_ONLY);
            } else if self.selected_count() == 0 {
                self.status = String::from_str(MSG_NOTHING_SELECTED);
            } else {
                self.screen = SCREEN_REVIEW;
                self.review_scroll = 0;
                self.status = String::new();
            }
        } else if key == KEY_BACK || key == KEY_ESCAPE {
            if self.dirty {
                self.exit_pending = true;
                self.status = String::from_str(MSG_UNSAVED);
            } else {
                self.screen = SCREEN_MAIN;
                self.index = self.parent_index;
            }
        }
    }
}

/// `a + b`, or the largest `usize` when that overflows.
pub open spec fn sat_add(a: int, b: int) -> usize {
    if a + b > usize::MAX {
        usize::MAX
    } else {
        (a + b) as usize
    }
}

/// The review screen's response to a key: scroll, run, or go back.
pub open spec fn review_next(o: DemoState, n: DemoState, key: u32) -> bool {
    if key == KEY_UP {
        n == (DemoState { review_scroll: sat_sub(o.review_scroll as int, 1) as usize, ..o })
    } else if key == KEY_DOWN {
        n == (DemoState { review_scroll: sat_add(o.review_scroll as int, 1), ..o })
    } else if key == KEY_PAGE_UP {
        n == (DemoState { review_scroll: sat_sub(o.review_scroll as int, 8) as usize, ..o })
    } else if key == KEY_PAGE_DOWN {
        n == (DemoState { review_scroll: sat_add(o.review_scroll as int, 8), ..o })
    } else if key == KEY_HOME {
        n == (DemoState { review_scroll: 0, ..o })
    } else if key == KEY_END {
        n == (DemoState { review_scroll: usize::MAX, ..o })
    } else if key == KEY_RUN || key == KEY_ENTER {
        n == (DemoState {
            screen: SCREEN_RUN,
            run_step: 0,
            run_scroll: 0,
            run_filter: 0,
            run_folded: false,
            run_aborting: false,
            run_aborted: false,
            ..o
        })
    } else if key == KEY_BACK || key == KEY_ESCAPE {
        n == (DemoState { screen: SCREEN_PLAN, ..o })
    } else {
        n == o
    }
}

/// The history list's response to a key.
pub open spec fn history_next(o: DemoState, n: DemoState, key: u32) -> bool {
    if key == KEY_UP {
        n == (DemoState { index: sat_sub(o.index as int, 1) as u32, ..o })
    } else if key == KEY_DOWN {
        let last = sat_sub(o.history_count as int, 1);
        n == (DemoState { index: if o.index + 1 < last { (o.index + 1) as u32 } else { last as u32 }, ..o })
    } else if key == KEY_ENTER {
        n == (DemoState {
            parent_index: o.index,
            screen: SCREEN_REPLAY,
            index: 0,
            replay_expanded: false,
            ..o
        })
    } else if key == KEY_BACK || key == KEY_ESCAPE {
        n == (DemoState { screen: SCREEN_MAIN, index: 2, ..o })
    } else {
        n == o
    }
}

/// The replay screen's response to a key.
pub open spec fn replay_next(o: DemoState, n: DemoState, key: u32) -> bool {
    if key == KEY_UP {
        n == (DemoState { index: sat_sub(o.index as int, 1) as u32, replay_expanded: false, ..o })
    } else if key == KEY_DOWN {
        let last = sat_sub(o.replay_count as int, 1);
        n == (DemoState {
            index: if o.index + 1 < last { (o.index + 1) as u32 } else { last as u32 },
            replay_expanded: false,
            ..o
        })
    } else if key == KEY_ENTER || key == KEY_SPACE {
        n == (DemoState { replay_expanded: !o.replay_expanded, ..o })
    } else if key == KEY_BACK || key == KEY_ESCAPE {
        n == (DemoState { screen: SCREEN_HISTORY, index: o.parent_index, replay_expanded: false, ..o })
    } else {
        n == o
    }
}

/// The run (or result) screen's response to a key: scroll the log, cycle
/// its filter, fold it, and abort the run (or, on the result, go back).
pub open spec fn run_next(o: DemoState, n: DemoState, key: u32, finished: bool) -> bool {
    if key == KEY_UP {
        n == (DemoState { run_scroll: sat_add(o.run_scroll as int, 1), ..o })
    } else if key == KEY_DOWN {
        n == (DemoState { run_scroll: sat_sub(o.run_scroll as int, 1) as usize, ..o })
    } else if key == KEY_TAB {
        n == (DemoState { run_filter: ((o.run_filter + 1) % 3) as u32, ..o })
    } else if key == KEY_ENTER || key == KEY_SPACE {
        n == (DemoState { run_folded: !o.run_folded, ..o })
    } else if key == KEY_BACK || key == KEY_ESCAPE {
        if finished {
            n == (DemoState { screen: SCREEN_MAIN, index: o.parent_index, run_scroll: 0, ..o })
        } else {
            n == (DemoState { run_aborting: true, ..o })
        }
    } else {
        n == o
    }
}

/// The demo's response to a key on whatever screen it shows.
pub open spec fn input_next(o: DemoState, n: DemoState, key: u32) -> bool {
    if o.screen == SCREEN_MAIN {
        main_next(o, n, key)
    } else if o.screen == SCREEN_PLAN {
        plan_next(o, n, key)
    } else if o.screen == SCREEN_REVIEW {
        review_next(o, n, key)
    } else if o.screen == SCREEN_RUN {
        run_next(o, n, key, false)
    } else if o.screen == SCREEN_RESULT {
        run_next(o, n, key, true)
    } else if o.screen == SCREEN_HISTORY {
        history_next(o, n, key)
    } else if o.screen == SCREEN_REPLAY {
        replay_next(o, n, key)
    } else {
        n == (DemoState { screen: SCREEN_MAIN, ..o })
    }
}

/// One timer tick: a run being aborted ends aborted; a running run takes a
/// step and ends after the sixth; other screens are unchanged.
pub open spec fn tick_next(o: DemoState, n: DemoState) -> bool {
    if o.screen == SCREEN_RUN {
        if o.run_aborting {
            n == (DemoState { run_aborting: false, run_aborted: true, screen: SCREEN_RESULT, ..o })
        } else {
            n == (DemoState {
                run_step: (o.run_step + 1) as u32,
                screen: if o.run_step + 1 >= 6 { SCREEN_RESULT } else { SCREEN_RUN },
                ..o
            })
        }
    } else {
        n == o
    }
}

impl DemoState {
    /// The review screen: scroll, start the run, or go back to the plan.
    pub fn input_review(&mut self, key: u32)
        ensures
            review_next(*old(self), *final(self), key),
    {
        if key == KEY_UP {
            self.review_scroll = self.review_scroll.saturating_sub(1);
        } else if key == KEY_DOWN {
            self.review_scroll = self.review_scroll.saturating_add(1);
        } else if key == KEY_PAGE_UP {
            self.review_scroll = self.review_scroll.saturating_sub(8);
        } else if key == KEY_PAGE_DOWN {
            self.review_scroll = self.review_scroll.saturating_add(8);
        } else if key == KEY_HOME {
            self.review_scroll = 0;
        } else if key == KEY_END {
            self.review_scroll = usize::MAX;
        } else if key == KEY_RUN || key == KEY_ENTER {
            self.screen = SCREEN_RUN;
            self.run_step = 0;
            self.run_scroll = 0;
            self.run_filter = 0;
            self.run_folded = false;
            self.run_aborting = false;
            self.run_aborted = false;
        } else if key == KEY_BACK || key == KEY_ESCAPE {
            self.screen = SCREEN_PLAN;
        }
    }

    /// The history list: move, open a run's replay, or go back.
    pub fn input_history(&mut self, key: u32)
        requires
            old(self).index < u32::MAX,
        ensures
            history_next(*old(self), *final(self), key),
    {
        if key == KEY_UP {
            self.index = self.index.saturating_sub(1);
        } else if key == KEY_DOWN {
            let last = self.history_count.saturating_sub(1);
            self.index = if self.index + 1 < last { self.index + 1 } else { last };
        } else if key == KEY_ENTER {
            self.parent_index = self.index;
            self.screen = SCREEN_REPLAY;
            self.index = 0;
            self.replay_expanded = false;
        } else if key == KEY_BACK || key == KEY_ESCAPE {
            self.screen = SCREEN_MAIN;
            self.index = 2;
        }
    }

    /// The replay of a run: move between its items, expand one, or go back.
    pub fn input_replay(&mut self, key: u32)
        requires
            old(self).index < u32::MAX,
        ensures
            replay_next(*old(self), *final(self), key),
    {
        if key == KEY_UP {
            self.index = self.index.saturating_sub(1);
            self.replay_expanded = false;
        } else if key == KEY_DOWN {
            let last = self.replay_count.saturating_sub(1);
            self.index = if self.index + 1 < last { self.index + 1 } else { last };
            self.replay_expanded = false;
        } else if key == KEY_ENTER || key == KEY_SPACE {
            self.replay_expanded = !self.replay_expanded;
        } else if key == KEY_BACK || key == KEY_ESCAPE {
            self.screen = SCREEN_HISTORY;
            self.index = self.parent_index;
            self.replay_expanded = false;
        }
    }

    fn input_run(&mut self, key: u32, finished: bool)
        requires
            old(self).run_filter < u32::MAX,
        ensures
            run_next(*old(self), *final(self), key, finished),
    {
        if key == KEY_UP {
            self.run_scroll = self.run_scroll.saturating_add(1);
        } else if key == KEY_DOWN {
            self.run_scroll = self.run_scroll.saturating_sub(1);
        } else if key == KEY_TAB {
            self.run_filter = (self.run_filter + 1) % 3;
        } else if key == KEY_ENTER || key == KEY_SPACE {
            self.run_folded = !self.run_folded;
        } else if key == KEY_BACK || key == KEY_ESCAPE {
            if finished {
                self.screen = SCREEN_MAIN;
                self.index = self.parent_index;
                self.run_scroll = 0;
            } else {
                self.run_aborting = true;
            }
        }
    }

    /// A key press, handled by the screen shown.
    pub fn input(&mut self, key: u32)
        requires
            old(self).counters_ok(),
        ensures
            input_next(*old(self), *final(self), key),
    {
        if self.screen == SCREEN_MAIN {
            self.input_main(key);
        } else if self.screen == SCREEN_PLAN {
            self.input_plan(key);
        } else if self.screen == SCREEN_REVIEW {
            self.input_review(key);
        } else if self.screen == SCREEN_RUN {
            self.input_run(key, false);
        } else if self.screen == SCREEN_RESULT {
            self.input_run(key, true);
        } else if self.screen == SCREEN_HISTORY {
            self.input_history(key);
        } else if self.screen == SCREEN_REPLAY {
            self.input_replay(key);
        } else {
            self.screen = SCREEN_MAIN;
        }
    }

    /// A timer tick.
    pub fn tick(&mut self)
        requires
            old(self).run_step < u32::MAX,
        ensures
            tick_next(*old(self), *final(self)),
    {
        if self.screen == SCREEN_RUN {
            if self.run_aborting {
                self.run_aborting = false;
                self.run_aborted = true;
                self.screen = SCREEN_RESULT;
                return;
            }
            self.run_step = self.run_step + 1;
            if self.run_step >= 6 {
                self.screen = SCREEN_RESULT;
            }
        }
    }
}

/// The row a main-menu click lands on, if any.
pub open spec fn main_click_target(row: u16) -> Option<u32> {
    if row == 3 || row == 4 {
        Some(0)
    } else if row == 6 || row == 7 {
        Some(1)
    } else if row == 9 || row == 10 {
        Some(2)
    } else if row == 12 || row == 13 {
        Some(3)
    } else {
        None
    }
}

/// The status line updated for the focus of `mid`.
pub open spec fn refocused(mid: DemoState, n: DemoState) -> bool {
    n.status@ == focus_text(mid.seed.items@, mid.focus_spec()) && n == (DemoState { status: n.status, ..mid })
}

/// A click on the plan screen at `column`, `row`: on a layer header it
/// focuses and toggles the layer; on an item it focuses it and, on a double
/// click or a click on its checkbox, toggles it; in a grid row likewise for
/// the cell clicked.
pub open spec fn plan_click(o: DemoState, n: DemoState, column: u16, row: u16, clicks: u32) -> bool {
    let footer = sat_sub(o.height as int, 4);
    let rows = o.rows_spec();
    let max_rows = sat_sub(footer as int, 2);
    let offset = list_offset_spec(o.plan_row as nat, rows.len(), max_rows);
    let ri = offset + row - 2;
    if row < 2 || row >= footer || ri >= rows.len() {
        n == o
    } else {
        match rows[ri] {
            RowV::Header(layer, _) => layer_toggled(
                DemoState { plan_row: ri as usize, grid_col: 0, ..o },
                n,
                layer,
            ),
            RowV::Item(_) => {
                let mid = DemoState { plan_row: ri as usize, grid_col: 0, ..o };
                if clicks >= 2 || (5 <= column <= 7) {
                    toggle_next(mid, n)
                } else {
                    refocused(mid, n)
                }
            },
            RowV::Inline(v) => {
                let cell = grid_cell_width_spec(sat_sub(o.width as int, 2), plan_columns_spec(o.width));
                let stride = cell + 4;
                let clicked = sat_sub(column as int, 3) / stride;
                let last = sat_sub(v.len() as int, 1);
                let col = if clicked < last {
                    clicked
                } else {
                    last
                };
                let mid = DemoState { plan_row: ri as usize, grid_col: col as usize, ..o };
                let start = 3 + col * stride;
                if clicks >= 2 || (start + 2 <= column <= start + 4) {
                    toggle_next(mid, n)
                } else {
                    refocused(mid, n)
                }
            },
            RowV::Divider => n == o,
        }
    }
}

/// The demo's response to a click at `column`, `row` (`clicks` 2 for a
/// double click).
pub open spec fn pointer_next(o: DemoState, n: DemoState, column: u16, row: u16, clicks: u32) -> bool {
    if o.screen == SCREEN_MAIN {
        match main_click_target(row) {
            Some(t) => if clicks >= 2 {
                main_next(DemoState { index: t, ..o }, n, KEY_ENTER)
            } else {
                n == (DemoState { index: t, ..o })
            },
            None => n == o,
        }
    } else if o.screen == SCREEN_PLAN {
        plan_click(o, n, column, row, clicks)
    } else if o.screen == SCREEN_RUN || o.screen == SCREEN_RESULT {
        let log_top = sat_sub(o.height as int, 11);
        if row == log_top {
            n == (DemoState { run_filter: ((o.run_filter + 1) % 3) as u32, ..o })
        } else if row > log_top && row < sat_sub(o.height as int, 1) {
            n == (DemoState { run_folded: !o.run_folded, ..o })
        } else {
            n == o
        }
    } else if o.screen == SCREEN_HISTORY && row >= 2 {
        let t = (row - 2) as u32;
        if t < o.history_count {
            if clicks >= 2 {
                history_next(DemoState { index: t, ..o }, n, KEY_ENTER)
            } else {
                n == (DemoState { index: t, ..o })
            }
        } else {
            n == o
        }
    } else if o.screen == SCREEN_REPLAY && row >= 3 {
        let t0 = row - 3;
        let t = if o.replay_expanded && t0 > o.index {
            t0 - 1
        } else {
            t0
        };
        if t < o.replay_count {
            n == (DemoState { index: t as u32, replay_expanded: clicks >= 2, ..o })
        } else {
            n == o
        }
    } else {
        n == o
    }
}

impl DemoState {
    fn click_header(&mut self, ri: usize, layer: &str)
        ensures
            layer_toggled(DemoState { plan_row: ri, grid_col: 0, ..*old(self) }, *final(self), layer@),
    {
        self.plan_row = ri;
        self.grid_col = 0;
        toggle_layer(&mut self.collapsed, layer);
        self.clamp_plan_focus();
    }

    fn click_item(&mut self, ri: usize, column: u16, clicks: u32)
        ensures
            ({
                let mid = DemoState { plan_row: ri, grid_col: 0, ..*old(self) };
                if clicks >= 2 || (5 <= column <= 7) {
                    toggle_next(mid, *final(self))
                } else {
                    refocused(mid, *final(self))
                }
            }),
    {
        self.plan_row = ri;
        self.grid_col = 0;
        if clicks >= 2 || (5 <= column && column <= 7) {
            self.toggle_current();
        } else {
            self.update_focus_status();
        }
    }

    fn click_cell(&mut self, ri: usize, cells: usize, column: u16, clicks: u32)
        ensures
            ({
                let o = *old(self);
                let cell = grid_cell_width_spec(sat_sub(o.width as int, 2), plan_columns_spec(o.width));
                let stride = cell + 4;
                let clicked = sat_sub(column as int, 3) / stride;
                let last = sat_sub(cells as int, 1);
                let col = if clicked < last {
                    clicked
                } else {
                    last
                };
                let mid = DemoState { plan_row: ri, grid_col: col as usize, ..o };
                let start = 3 + col * stride;
                if clicks >= 2 || (start + 2 <= column <= start + 4) {
                    toggle_next(mid, *final(self))
                } else {
                    refocused(mid, *final(self))
                }
            }),
    {
        let width = self.width.saturating_sub(2) as usize;
        let cell_width = grid_cell_width(width, plan_columns(self.width));
        let stride = cell_width + 4;
        let clicked = (column.saturating_sub(3) as usize) / stride;
        let last = cells.saturating_sub(1);
        self.plan_row = ri;
        self.grid_col = if clicked < last {
            clicked
        } else {
            last
        };
        proof {
            let c = self.grid_col as int;
            let k = clicked as int;
            let st = stride as int;
            let col = column as int;
            assert(k * st <= col) by (nonlinear_arith)
                requires
                    k == (if col > 3 { col - 3 } else { 0int }) / st,
                    st > 0,
                    col >= 0,
            ;
            assert(c * st <= k * st) by (nonlinear_arith)
                requires
                    0 <= c <= k,
                    st > 0,
            ;
        }
        let start = 3 + self.grid_col * stride;
        if clicks >= 2 || (start + 2 <= column as usize && column as usize <= start + 4) {
            self.toggle_current();
        } else {
            self.update_focus_status();
        }
    }

    /// A click on the plan screen.
    pub fn pointer_plan(&mut self, column: u16, row: u16, clicks: u32)
        requires
            old(self).plan_row < usize::MAX,
        ensures
            plan_click(*old(self), *final(self), column, row, clicks),
    {
        let footer_y = self.height.saturating_sub(4);
        if row < 2 || row >= footer_y {
            return;
        }
        let rows = self.rows();
        let ghost rv = rows_view(rows@);
        let max_rows = (footer_y - 2) as usize;
        let offset = list_offset(self.plan_row, rows.len(), max_rows);
        if offset >= rows.len() || (row - 2) as usize >= rows.len() - offset {
            return;
        }
        let row_index = offset + (row - 2) as usize;
        proof {
            assert(rv[row_index as int] == row_view(rows@[row_index as int]));
        }
        match &rows[row_index] {
            PlanRow::Header { layer, .. } => self.click_header(row_index, layer.as_str()),
            PlanRow::Item(_) => self.click_item(row_index, column, clicks),
            PlanRow::Inline(indices) => self.click_cell(row_index, indices.len(), column, clicks),
            PlanRow::Divider => {},
        }
    }

    /// A click at `column`, `row` on whatever screen is shown.
    pub fn pointer(&mut self, column: u16, row: u16, clicks: u32)
        requires
            old(self).counters_ok(),
        ensures
            pointer_next(*old(self), *final(self), column, row, clicks),
    {
        if self.screen == SCREEN_MAIN {
            let target: Option<u32> = if row == 3 || row == 4 {
                Some(0)
            } else if row == 6 || row == 7 {
                Some(1)
            } else if row == 9 || row == 10 {
                Some(2)
            } else if row == 12 || row == 13 {
                Some(3)
            } else {
                None
            };
            match target {
                Some(t) => {
                    self.index = t;
                    if clicks >= 2 {
                        self.input_main(KEY_ENTER);
                    }
                },
                None => {},
            }
        } else if self.screen == SCREEN_PLAN {
            self.pointer_plan(column, row, clicks);
        } else if self.screen == SCREEN_RUN || self.screen == SCREEN_RESULT {
            let log_top = self.height.saturating_sub(11);
            if row == log_top {
                self.run_filter = (self.run_filter + 1) % 3;
            } else if row > log_top && row < self.height.saturating_sub(1) {
                self.run_folded = !self.run_folded;
            }
        } else if self.screen == SCREEN_HISTORY && row >= 2 {
            let target = (row - 2) as u32;
            if target < self.history_count {
                self.index = target;
                if clicks >= 2 {
                    self.input_history(KEY_ENTER);
                }
            }
        } else if self.screen == SCREEN_REPLAY && row >= 3 {
            let mut target = (row - 3) as u32;
            if self.replay_expanded && target > self.index {
                target = target - 1;
            }
            if target < self.replay_count {
                self.index = target;
                self.replay_expanded = clicks >= 2;
            }
        }
    }
}

/// A review entry is shown: its item exists and is selected.
pub open spec fn entry_visible(items: Seq<SeedItem>, e: ReviewEntry) -> bool {
    e.item_index < items.len() && items[e.item_index as int].selected
}

/// The review group of an entry's severity: attention (warning or danger),
/// will run, already fine, skipped.
pub open spec fn in_group(e: ReviewEntry, g: int) -> bool {
    if g == 0 {
        e.severity@ == "warning"@ || e.severity@ == "danger"@
    } else if g == 1 {
        e.severity@ == "run"@
    } else if g == 2 {
        e.severity@ == "success"@
    } else {
        e.severity@ == "skip"@
    }
}

/// The number of shown entries in group `g`.
pub open spec fn group_size(items: Seq<SeedItem>, entries: Seq<ReviewEntry>, g: int) -> nat
    decreases entries.len(),
{
    if entries.len() == 0 {
        0
    } else {
        group_size(items, entries.drop_last(), g) + (if entry_visible(items, entries.last()) && in_group(
            entries.last(),
            g,
        ) {
            1nat
        } else {
            0nat
        })
    }
}

/// The lines a review group takes: a heading and its entries, or none.
pub open spec fn group_lines(n: nat) -> nat {
    if n > 0 {
        n + 1
    } else {
        0
    }
}

/// The number of lines of the review list: each non-empty group's heading
/// and entries, or a single line saying there is nothing.
pub open spec fn review_line_count(items: Seq<SeedItem>, entries: Seq<ReviewEntry>) -> nat {
    let t = group_lines(group_size(items, entries, 0)) + group_lines(group_size(items, entries, 1))
        + group_lines(group_size(items, entries, 2)) + group_lines(group_size(items, entries, 3));
    if t == 0 {
        1
    } else {
        t
    }
}

proof fn lemma_severities_distinct()
    ensures
        "warning"@ != "run"@ && "warning"@ != "success"@ && "warning"@ != "skip"@,
        "danger"@ != "run"@ && "danger"@ != "success"@ && "danger"@ != "skip"@,
        "run"@ != "success"@ && "run"@ != "skip"@ && "success"@ != "skip"@,
{
    reveal_strlit("warning");
    reveal_strlit("danger");
    reveal_strlit("run");
    reveal_strlit("success");
    reveal_strlit("skip");
    assert("warning"@[0] != "success"@[0]);
    assert("warning"@.len() != "run"@.len());
    assert("warning"@.len() != "skip"@.len());
    assert("danger"@.len() != "run"@.len());
    assert("danger"@.len() != "success"@.len());
    assert("danger"@.len() != "skip"@.len());
    assert("run"@.len() != "success"@.len());
    assert("run"@.len() != "skip"@.len());
    assert("success"@.len() != "skip"@.len());
}

proof fn lemma_group_sizes(items: Seq<SeedItem>, entries: Seq<ReviewEntry>)
    ensures
        group_size(items, entries, 0) + group_size(items, entries, 1) + group_size(items, entries, 2)
            + group_size(items, entries, 3) <= entries.len(),
    decreases entries.len(),
{
    if entries.len() > 0 {
        lemma_group_sizes(items, entries.drop_last());
        lemma_severities_distinct();
    }
}

fn severity_group(e: &ReviewEntry) -> (r: usize)
    ensures
        r <= 4,
        r < 4 ==> in_group(*e, r as int),
        forall|g: int| 0 <= g < 4 && in_group(*e, g) ==> g == r,
{
    proof {
        reveal_strlit("warning");
        reveal_strlit("danger");
        reveal_strlit("run");
        reveal_strlit("success");
        reveal_strlit("skip");
    }
    proof {
        lemma_severities_distinct();
    }
    let s = e.severity.as_str();
    if str_eq(s, "warning") || str_eq(s, "danger") {
        0
    } else if str_eq(s, "run") {
        1
    } else if str_eq(s, "success") {
        2
    } else if str_eq(s, "skip") {
        3
    } else {
        4
    }
}

impl DemoState {
    /// The number of lines of the review list.
    pub fn review_lines_len(&self) -> (r: usize)
        requires
            self.seed.review_entries@.len() + 4 <= usize::MAX,
        ensures
            r == review_line_count(self.seed.items@, self.seed.review_entries@),
    {
        let items = &self.seed.items;
        let entries = &self.seed.review_entries;
        let mut c0: usize = 0;
        let mut c1: usize = 0;
        let mut c2: usize = 0;
        let mut c3: usize = 0;
        let mut i: usize = 0;
        while i < entries.len()
            invariant
                i <= entries@.len(),
                entries@.len() + 4 <= usize::MAX,
                c0 == group_size(items@, entries@.take(i as int), 0),
                c1 == group_size(items@, entries@.take(i as int), 1),
                c2 == group_size(items@, entries@.take(i as int), 2),
                c3 == group_size(items@, entries@.take(i as int), 3),
            decreases entries@.len() - i,
        {
            proof {
                assert(entries@.take(i + 1).drop_last() =~= entries@.take(i as int));
                lemma_group_sizes(items@, entries@.take(i as int));
            }
            let e = &entries[i];
            let visible = e.item_index < items.len() && items[e.item_index].selected;
            if visible {
                let g = severity_group(e);
                if g == 0 {
                    c0 = c0 + 1;
                } else if g == 1 {
                    c1 = c1 + 1;
                } else if g == 2 {
                    c2 = c2 + 1;
                } else if g == 3 {
                    c3 = c3 + 1;
                }
            }
            i += 1;
        }
        proof {
            assert(entries@.take(entries@.len() as int) =~= entries@);
            lemma_group_sizes(items@, entries@);
        }
        let t = (if c0 > 0 { c0 + 1 } else { 0 }) + (if c1 > 0 { c1 + 1 } else { 0 }) + (if c2 > 0 {
            c2 + 1
        } else {
            0
        }) + (if c3 > 0 { c3 + 1 } else { 0 });
        if t == 0 {
            1
        } else {
            t
        }
    }

    /// Prepares the screen for drawing and names it: the review keeps its
    /// scroll within its lines, the plan (drawn for every other screen)
    /// keeps its focus on a row.
    pub fn frame_screen(&mut self) -> (r: &'static str)
        requires
            old(self).seed.review_entries@.len() + 4 <= usize::MAX,
        ensures
            old(self).screen == SCREEN_REVIEW ==> r@ == "review"@ && *final(self) == (DemoState {
                review_scroll: {
                    let m = sat_sub(
                        review_line_count(old(self).seed.items@, old(self).seed.review_entries@) as int,
                        sat_sub(old(self).height as int, 7) as int,
                    );
                    if old(self).review_scroll < m {
                        old(self).review_scroll
                    } else {
                        m as usize
                    }
                },
                ..*old(self)
            }),
            old(self).screen == SCREEN_RUN ==> r@ == "run"@ && *final(self) == *old(self),
            old(self).screen == SCREEN_RESULT ==> r@ == "result"@ && *final(self) == *old(self),
            old(self).screen != SCREEN_REVIEW && old(self).screen != SCREEN_RUN && old(self).screen
                != SCREEN_RESULT ==> r@ == "plan"@ && final(self).plan_row == clamped_row(
                old(self).rows_spec(),
                old(self).plan_row as nat,
            ) && final(self).grid_col == clamped_col(
                old(self).rows_spec(),
                final(self).plan_row as nat,
                old(self).grid_col as nat,
            ) && *final(self) == (DemoState {
                plan_row: final(self).plan_row,
                grid_col: final(self).grid_col,
                ..*old(self)
            }),
    {
        proof {
            reveal_strlit("review");
            reveal_strlit("run");
            reveal_strlit("result");
            reveal_strlit("plan");
        }
        if self.screen == SCREEN_REVIEW {
            let body_height = self.height.saturating_sub(7) as usize;
            let max_scroll = self.review_lines_len().saturating_sub(body_height);
            if self.review_scroll >= max_scroll {
                self.review_scroll = max_scroll;
            }
            "review"
        } else if self.screen == SCREEN_RUN {
            "run"
        } else if self.screen == SCREEN_RESULT {
            "result"
        } else {
            self.clamp_plan_focus();
            "plan"
        }
    }
}

/// The order of action kinds in the review: install, link, create, shell,
/// clean, then anything else.
pub open spec fn kind_rank_spec(kind: Seq<char>) -> nat {
    if kind == "install"@ {
        0
    } else if kind == "link"@ {
        1
    } else if kind == "create"@ {
        2
    } else if kind == "shell"@ {
        3
    } else if kind == "clean"@ {
        4
    } else {
        5
    }
}

/// The order of an action kind in the review.
pub fn kind_rank(kind: &str) -> (r: usize)
    ensures
        r == kind_rank_spec(kind@),
{
    if str_eq(kind, "install") {
        0
    } else if str_eq(kind, "link") {
        1
    } else if str_eq(kind, "create") {
        2
    } else if str_eq(kind, "shell") {
        3
    } else if str_eq(kind, "clean") {
        4
    } else {
        5
    }
}

/// What the demo shows an action coming to: shell steps ran; every fourth
/// other action needed no change; the rest changed.
pub open spec fn action_outcome_spec(kind: Seq<char>, index: nat) -> Seq<char> {
    if kind == "shell"@ {
        "ran"@
    } else if index % 4 == 3 {
        "no change"@
    } else {
        "changed"@
    }
}

/// What the demo shows an action coming to.
pub fn action_outcome(entry: &ReviewEntry, index: usize) -> (r: &'static str)
    ensures
        r@ == action_outcome_spec(entry.kind@, index as nat),
{
    proof {
        reveal_strlit("ran");
        reveal_strlit("no change");
        reveal_strlit("changed");
    }
    if str_eq(entry.kind.as_str(), "shell") {
        "ran"
    } else if index % 4 == 3 {
        "no change"
    } else {
        "changed"
    }
}

/// The counts of ran, changed and unchanged actions among the first
/// `completed` entries.
pub open spec fn result_counts_spec(entries: Seq<ReviewEntry>, completed: nat) -> (nat, nat, nat)
    decreases completed,
{
    if completed == 0 || entries.len() == 0 {
        (0, 0, 0)
    } else if completed > entries.len() {
        result_counts_spec(entries, entries.len())
    } else {
        let (r, c, u) = result_counts_spec(entries, (completed - 1) as nat);
        let o = action_outcome_spec(entries[completed - 1].kind@, (completed - 1) as nat);
        if o == "ran"@ {
            (r + 1, c, u)
        } else if o == "no change"@ {
            (r, c, u + 1)
        } else {
            (r, c + 1, u)
        }
    }
}

/// The counts of ran, changed and unchanged actions among the first
/// `completed` entries.
pub fn result_counts(entries: &Vec<ReviewEntry>, completed: usize) -> (r: (usize, usize, usize))
    ensures
        (r.0 as nat, r.1 as nat, r.2 as nat) == result_counts_spec(entries@, completed as nat),
{
    let n = if completed < entries.len() {
        completed
    } else {
        entries.len()
    };
    proof {
        reveal_strlit("ran");
        reveal_strlit("no change");
        reveal_strlit("changed");
        if completed > entries@.len() && entries@.len() > 0 {
            assert(result_counts_spec(entries@, completed as nat) == result_counts_spec(entries@, entries@.len()));
        }
    }
    let mut ran: usize = 0;
    let mut changed: usize = 0;
    let mut unchanged: usize = 0;
    let mut i: usize = 0;
    while i < n
        invariant
            i <= n <= entries@.len(),
            (ran as nat, changed as nat, unchanged as nat) == result_counts_spec(entries@, i as nat),
            ran + changed + unchanged == i,
        decreases n - i,
    {
        let o = action_outcome(&entries[i], i);
        if str_eq(o, "ran") {
            ran = ran + 1;
        } else if str_eq(o, "no change") {
            unchanged = unchanged + 1;
        } else {
            changed = changed + 1;
        }
        i += 1;
    }
    (ran, changed, unchanged)
}

/// Discarding brings back the saved selection, whatever was toggled since
/// it was saved.
pub proof fn lemma_discard_restores_saved(saved_from: Seq<SeedItem>, later: Seq<SeedItem>, after: Seq<SeedItem>)
    requires
        same_items(saved_from, later),
        restored(later, after, selections(saved_from)),
    ensures
        selections(after) == selections(saved_from),
        same_items(saved_from, after),
{
    assert forall|j: int| 0 <= j < saved_from.len() implies #[trigger] after[j].name == saved_from[j].name
        && after[j].layer == saved_from[j].layer && after[j].action_count == saved_from[j].action_count by {
        assert(later[j].name == saved_from[j].name);
        assert(after[j].name == later[j].name);
    }
    assert(selections(after) =~= selections(saved_from)) by {
        assert forall|j: int| 0 <= j < saved_from.len() implies selections(after)[j] == selections(saved_from)[j] by {
            assert(after[j].selected == selections(saved_from)[j]);
        }
    }
}

/// Toggling the same layer twice leaves the collapsed layers as they were.
pub proof fn lemma_toggle_layer_twice(a: Seq<Seq<char>>, b: Seq<Seq<char>>, c: Seq<Seq<char>>, layer: Seq<char>)
    requires
        toggled(a, b, layer),
        toggled(b, c, layer),
    ensures
        forall|x: Seq<char>| #[trigger] c.contains(x) == a.contains(x),
{
    assert forall|x: Seq<char>| #[trigger] c.contains(x) == a.contains(x) by {
        assert(b.contains(x) == (if x == layer { !a.contains(layer) } else { a.contains(x) }));
        assert(b.contains(layer) == !a.contains(layer));
    }
}

} // verus!
