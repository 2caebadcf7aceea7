//! Plan: the pure function from a configuration (and what the tool database
//! says) to a plan, with layer grouping, auto-attachment of links to install
//! items, and first-run selection defaults.

use vstd::prelude::*;
use crate::config::{CleanEntry, Config, LinkEntry, ShellEntry};
use crate::execute::installer::{sh_quoted, shell_quote};
use crate::model::clone_opt;
use crate::ops::install::{ToolDb, tool_layer, tool_layer_spec};
use crate::model::{Action, ActionStatus, HostInfo, Mode, Plan, PlanItem, rank_of};
use crate::stamp::{config_hash, config_hash_spec, new_run_id, now_iso};
use crate::ops::shell::{command_contains_sudo, mentions_sudo};
use crate::package_managers::Os;
use crate::text::{
    alphanumeric, ascii_lower, chars_eq, opt_string_view, opt_view, str_eq, chars_of, contains, contains_seq, ends_with, has_prefix,
    has_suffix, is_alphanumeric, slice_chars, starts_with, str_views, string_of, to_ascii_lower,
};

verus! {

/// Layer assignment and selection strategy.
#[derive(Debug, Clone, Copy, PartialEq, Eq, Structural)]
pub enum LayerStrategy {
    PickOne,
    All,
}

/// Layers in which only one item is picked by default.
pub open spec fn is_pick_one_layer(layer: Seq<char>) -> bool {
    layer == "terminal"@ || layer == "shell"@
}

/// The strategy of a layer: terminals and shells pick one, all others take all.
pub fn layer_strategy(layer: &str) -> (r: LayerStrategy)
    ensures
        r == (if is_pick_one_layer(layer@) {
            LayerStrategy::PickOne
        } else {
            LayerStrategy::All
        }),
{
    if crate::text::str_eq(layer, "terminal") || crate::text::str_eq(layer, "shell") {
        LayerStrategy::PickOne
    } else {
        LayerStrategy::All
    }
}

/// The names a tool's dotfiles may be found under.
pub open spec fn owner_names_spec(tool: Seq<char>) -> Seq<Seq<char>> {
    if tool == "neovim"@ {
        seq!["neovim"@, "nvim"@]
    } else if tool == "ripgrep"@ {
        seq!["ripgrep"@, "rg"@]
    } else if tool == "tealdeer"@ {
        seq!["tealdeer"@, "tldr"@]
    } else if tool == "font-maple-mono-nf-cn"@ {
        seq!["font-maple-mono-nf-cn"@, "maple-mono"@]
    } else {
        seq![tool]
    }
}

/// The names a tool's dotfiles may be found under.
pub fn owner_names(tool: &str) -> (r: Vec<String>)
    ensures
        str_views(r@) == owner_names_spec(tool@),
{
    let mut r: Vec<String> = Vec::new();
    if crate::text::str_eq(tool, "neovim") {
        r.push(String::from_str("neovim"));
        r.push(String::from_str("nvim"));
    } else if crate::text::str_eq(tool, "ripgrep") {
        r.push(String::from_str("ripgrep"));
        r.push(String::from_str("rg"));
    } else if crate::text::str_eq(tool, "tealdeer") {
        r.push(String::from_str("tealdeer"));
        r.push(String::from_str("tldr"));
    } else if crate::text::str_eq(tool, "font-maple-mono-nf-cn") {
        r.push(String::from_str("font-maple-mono-nf-cn"));
        r.push(String::from_str("maple-mono"));
    } else {
        r.push(String::from_str(tool));
    }
    assert(str_views(r@) =~= owner_names_spec(tool@));
    r
}

/// The text after the last `/` of a path (all of it when there is none).
pub open spec fn basename(p: Seq<char>) -> Seq<char>
    decreases p.len(),
{
    if p.len() == 0 {
        p
    } else if p.last() == '/' {
        seq![]
    } else {
        basename(p.drop_last()).push(p.last())
    }
}

/// A link target belongs to a tool of owner name `n`: it is a directory
/// `n`, a file `n.*` or `.n.*`, a dotfile `.n`, or a file `n-<something>`.
pub open spec fn target_matches(t: Seq<char>, n: Seq<char>) -> bool {
    ||| contains_seq(t, "/"@ + n + "/"@)
    ||| has_suffix(t, "/"@ + n)
    ||| contains_seq(t, "/"@ + n + "."@)
    ||| contains_seq(t, "/."@ + n + "."@)
    ||| has_suffix(t, "/."@ + n)
    ||| (has_prefix(basename(t), n + "-"@) && basename(t).len() > n.len() + 1)
}

fn basename_chars(v: &[char]) -> (r: Vec<char>)
    ensures
        r@ == basename(v@),
{
    let mut k = v.len();
    assert(v@.take(v.len() as int) =~= v@);
    assert(v@.subrange(v.len() as int, v.len() as int) =~= Seq::<char>::empty());
    assert(basename(v@) + Seq::<char>::empty() =~= basename(v@));
    while k > 0 && v[k - 1] != '/'
        invariant
            k <= v.len(),
            basename(v@) == basename(v@.take(k as int)) + v@.subrange(k as int, v.len() as int),
        decreases k,
    {
        assert(v@.take(k as int).drop_last() =~= v@.take(k - 1));
        assert(basename(v@.take(k as int)) == basename(v@.take(k - 1)).push(v@[k - 1]));
        assert(basename(v@.take(k - 1)).push(v@[k - 1]) + v@.subrange(k as int, v.len() as int)
            =~= basename(v@.take(k - 1)) + v@.subrange(k - 1, v.len() as int));
        k -= 1;
    }
    proof {
        if k > 0 {
            assert(v@.take(k as int).last() == '/');
        }
        assert(basename(v@.take(k as int)) =~= Seq::<char>::empty());
        assert(Seq::<char>::empty() + v@.subrange(k as int, v.len() as int) =~= v@.subrange(
            k as int,
            v.len() as int,
        ));
    }
    slice_chars(v, k, v.len())
}

fn concat3(a: &str, b: &[char], c: &str) -> (r: Vec<char>)
    ensures
        r@ == a@ + b@ + c@,
{
    let mut r = chars_of(a);
    r.extend_from_slice(b);
    let mut t = chars_of(c);
    r.append(&mut t);
    r
}

/// Whether a link target belongs to a tool of owner name `n`.
pub fn target_matches_exec(t: &[char], n: &[char]) -> (r: bool)
    ensures
        r == target_matches(t@, n@),
{
    let a = concat3("/", n, "/");
    let b = concat3("/", n, "");
    let c = concat3("/", n, ".");
    let d = concat3("/.", n, ".");
    let e = concat3("/.", n, "");
    proof {
        assert(b@ =~= "/"@ + n@) by {
            reveal_strlit("");
        }
        assert(e@ =~= "/."@ + n@) by {
            reveal_strlit("");
        }
    }
    if contains(t, a.as_slice()) || ends_with(t, b.as_slice()) || contains(t, c.as_slice())
        || contains(t, d.as_slice()) || ends_with(t, e.as_slice()) {
        return true;
    }
    let base = basename_chars(t);
    let f = concat3("", n, "-");
    proof {
        assert(f@ =~= n@ + "-"@) by {
            reveal_strlit("");
        }
        reveal_strlit("-");
    }
    starts_with(base.as_slice(), f.as_slice()) && base.len() > n.len() + 1
}

/// Some owner name of a tool matches the target.
pub open spec fn owned_by(names: Seq<Seq<char>>, t: Seq<char>) -> bool {
    exists|k: int| 0 <= k < names.len() && target_matches(t, #[trigger] names[k])
}

/// Item `it` owns link target `t`: it is not misc and its leading install
/// action's tool has an owner name matching `t`.
pub open spec fn owns(it: PlanItem, t: Seq<char>) -> bool {
    &&& it.layer@ != "misc"@
    &&& it.actions@.len() > 0
    &&& it.actions@[0] is Install
    &&& owned_by(owner_names_spec(it.actions@[0]->Install_binary@), t)
}

/// `i` is the first item that owns `t`.
pub open spec fn first_owner(items: Seq<PlanItem>, t: Seq<char>, i: int) -> bool {
    0 <= i < items.len() && owns(items[i], t) && forall|j: int| 0 <= j < i ==> !owns(#[trigger] items[j], t)
}

/// The item a link or directory target attaches to: the first item that
/// owns it, if any.
#[verifier::loop_isolation(false)]
pub fn find_owner(target: &str, items: &Vec<PlanItem>) -> (r: Option<usize>)
    ensures
        match r {
            Some(i) => first_owner(items@, target@, i as int),
            None => forall|j: int| 0 <= j < items@.len() ==> !owns(#[trigger] items@[j], target@),
        },
{
    let t = chars_of(target);
    let mut i: usize = 0;
    while i < items.len()
        invariant
            i <= items.len(),
            t@ == target@,
            forall|j: int| 0 <= j < i ==> !owns(#[trigger] items@[j], target@),
        decreases items.len() - i,
    {
        let item = &items[i];
        if !crate::text::str_eq(item.layer.as_str(), "misc") && item.actions.len() > 0 {
            match &item.actions[0] {
                Action::Install { binary, .. } => {
                    let names = owner_names(binary.as_str());
                    let mut k: usize = 0;
                    while k < names.len()
                        invariant
                            k <= names.len(),
                            t@ == target@,
                            str_views(names@) == owner_names_spec(binary@),
                            forall|m: int| 0 <= m < k ==> !target_matches(target@, #[trigger] str_views(names@)[m]),
                        decreases names.len() - k,
                    {
                        if target_matches_exec(t.as_slice(), chars_of(names[k].as_str()).as_slice()) {
                            assert(target_matches(target@, str_views(names@)[k as int]));
                            assert(owned_by(owner_names_spec(binary@), target@));
                            assert(owns(items@[i as int], target@));
                            return Some(i);
                        }
                        k += 1;
                    }
                },
                _ => {},
            }
        }
        i += 1;
    }
    None
}

} // verus!

verus! {

/// An id made only of lowercase ASCII alphanumerics, Unicode alphanumerics
/// and dashes: alphanumeric characters lowered, all others replaced by `-`.
pub open spec fn sanitize_spec(s: Seq<char>) -> Seq<char> {
    Seq::new(s.len(), |i: int| if alphanumeric(s[i]) { ascii_lower(s[i]) } else { '-' })
}

/// The id base of a name: alphanumerics lowered, everything else `-`.
pub fn sanitize_id(s: &str) -> (r: Vec<char>)
    ensures
        r@ == sanitize_spec(s@),
{
    let v = chars_of(s);
    let mut r: Vec<char> = Vec::new();
    let mut i: usize = 0;
    while i < v.len()
        invariant
            i <= v.len(),
            v@ == s@,
            r@ =~= sanitize_spec(s@).take(i as int),
        decreases v.len() - i,
    {
        let c = v[i];
        if is_alphanumeric(c) {
            r.push(to_ascii_lower(c));
        } else {
            r.push('-');
        }
        i += 1;
    }
    assert(sanitize_spec(s@).take(v.len() as int) =~= sanitize_spec(s@));
    r
}

/// The `k`-th id candidate for a base: the base itself, then `base-2`,
/// `base-3`, ...
pub open spec fn candidate(base: Seq<char>, k: nat) -> Seq<char> {
    if k <= 1 {
        base
    } else {
        base + "-"@ + crate::text::decimal(k)
    }
}

proof fn lemma_decimal_len(n: nat)
    ensures
        crate::text::decimal(n).len() >= 1,
        n >= 10 ==> crate::text::decimal(n).len() >= 2,
    decreases n,
{
    if n >= 10 {
        lemma_decimal_len(n / 10);
    }
}

proof fn lemma_decimal_injective(a: nat, b: nat)
    requires
        crate::text::decimal(a) == crate::text::decimal(b),
    ensures
        a == b,
    decreases a,
{
    lemma_decimal_len(a);
    lemma_decimal_len(b);
    let da = crate::text::decimal(a);
    let db = crate::text::decimal(b);
    if a < 10 && b < 10 {
        assert(da[0] == db[0]);
    } else if a < 10 || b < 10 {
        assert(da.len() == db.len());
    } else {
        assert(da.last() == db.last());
        assert(da.drop_last() =~= crate::text::decimal(a / 10));
        assert(db.drop_last() =~= crate::text::decimal(b / 10));
        lemma_decimal_injective(a / 10, b / 10);
        assert(a % 10 == b % 10);
    }
}

proof fn lemma_candidate_injective(base: Seq<char>, j: nat, k: nat)
    requires
        1 <= j < k,
    ensures
        candidate(base, j) != candidate(base, k),
{
    reveal_strlit("-");
    lemma_decimal_len(k);
    if j > 1 {
        let p = base + "-"@;
        let cj = candidate(base, j);
        let ck = candidate(base, k);
        if cj == ck {
            assert(cj.skip(p.len() as int) =~= crate::text::decimal(j));
            assert(ck.skip(p.len() as int) =~= crate::text::decimal(k));
            lemma_decimal_injective(j, k);
        }
    } else {
        assert(candidate(base, k).len() > base.len());
    }
}

/// The candidates `1..=n`.
pub open spec fn candidate_set(base: Seq<char>, n: nat) -> Set<Seq<char>>
    decreases n,
{
    if n == 0 {
        Set::empty()
    } else {
        candidate_set(base, (n - 1) as nat).insert(candidate(base, n))
    }
}

proof fn lemma_candidate_set(base: Seq<char>, n: nat)
    ensures
        candidate_set(base, n).finite(),
        candidate_set(base, n).len() == n,
        forall|x: Seq<char>| #[trigger] candidate_set(base, n).contains(x) <==> exists|k: nat|
            1 <= k <= n && x == candidate(base, k),
    decreases n,
{
    if n > 0 {
        lemma_candidate_set(base, (n - 1) as nat);
        if candidate_set(base, (n - 1) as nat).contains(candidate(base, n)) {
            let k = choose|k: nat| 1 <= k <= n - 1 && candidate(base, n) == candidate(base, k);
            lemma_candidate_injective(base, k, n);
        }
        assert forall|x: Seq<char>| #[trigger] candidate_set(base, n).contains(x) implies exists|k: nat|
            1 <= k <= n && x == candidate(base, k) by {
            if x == candidate(base, n) {
                assert(1 <= n <= n && x == candidate(base, n));
            }
        }
        assert forall|x: Seq<char>| (exists|k: nat| 1 <= k <= n && x == candidate(base, k)) implies #[trigger] candidate_set(base, n).contains(x) by {
            let k = choose|k: nat| 1 <= k <= n && x == candidate(base, k);
            if k < n {
                assert(candidate_set(base, (n - 1) as nat).contains(x));
            }
        }
    }
}

/// When the candidates `1..=n` are all taken in `used`, there are at least
/// `n` used ids.
proof fn lemma_taken_bound(base: Seq<char>, n: nat, used: Seq<Seq<char>>)
    requires
        forall|k: nat| 1 <= k <= n ==> used.contains(#[trigger] candidate(base, k)),
    ensures
        n <= used.len(),
{
    lemma_candidate_set(base, n);
    assert(candidate_set(base, n).subset_of(used.to_set())) by {
        assert forall|x: Seq<char>| #[trigger] candidate_set(base, n).contains(x) implies used.to_set().contains(x) by {
            let k = choose|k: nat| 1 <= k <= n && x == candidate(base, k);
            assert(used.contains(candidate(base, k)));
        }
    }
    vstd::set_lib::lemma_len_subset(candidate_set(base, n), used.to_set());
    used.lemma_cardinality_of_set();
}

/// `id` is the first candidate for `base` that `used` does not hold.
pub open spec fn first_free(base: Seq<char>, used: Seq<Seq<char>>, id: Seq<char>) -> bool {
    exists|k: nat|
        k >= 1 && id == candidate(base, k) && !used.contains(id) && forall|j: nat|
            1 <= j < k ==> used.contains(#[trigger] candidate(base, j))
}

/// A fresh id for a name: the sanitised name, or the first `name-N` (N from 2)
/// not yet used; the id is recorded as used.
pub fn unique_id(name: &str, used: &mut Vec<String>) -> (r: String)
    requires
        old(used)@.len() + 2 < usize::MAX,
    ensures
        first_free(sanitize_spec(name@), str_views(old(used)@), r@),
        str_views(final(used)@) == str_views(old(used)@).push(r@),
{
    let base = sanitize_id(name);
    let ghost b = base@;
    let ghost u = str_views(used@);
    let base_s = string_of(base.as_slice());
    if !crate::text::contains_str(used, base_s.as_str()) {
        proof {
            assert(candidate(b, 1) == b);
            assert forall|j: nat| 1 <= j < 1 implies u.contains(#[trigger] candidate(b, j)) by {}
        }
        let ghost before = used@;
        used.push(base_s.clone());
        assert(str_views(used@) =~= str_views(before).push(b));
        return base_s;
    }
    let mut n: usize = 2;
    loop
        invariant
            2 <= n <= u.len() + 1,
            u == str_views(used@),
            used@ == old(used)@,
            b == sanitize_spec(name@),
            base@ == b,
            u.len() + 2 < usize::MAX,
            forall|j: nat| 1 <= j < n ==> u.contains(#[trigger] candidate(b, j)),
        decreases u.len() + 2 - n,
    {
        let mut cand = base.clone();
        cand.push('-');
        let mut digits = crate::text::decimal_chars(n as u64);
        cand.append(&mut digits);
        let cand_s = string_of(cand.as_slice());
        proof {
            reveal_strlit("-");
            assert(cand_s@ =~= candidate(b, n as nat));
        }
        if !crate::text::contains_str(used, cand_s.as_str()) {
            let ghost before = used@;
            used.push(cand_s.clone());
            assert(str_views(used@) =~= str_views(before).push(cand_s@));
            assert(!u.contains(candidate(b, n as nat)));
            assert(first_free(b, u, cand_s@));
            return cand_s;
        }
        proof {
            assert(forall|j: nat| 1 <= j < n + 1 ==> u.contains(#[trigger] candidate(b, j)));
            lemma_taken_bound(b, n as nat, u);
        }
        n += 1;
    }
}

} // verus!

verus! {

/// The planned status of an action.
pub open spec fn status_for_action_spec(a: Action) -> ActionStatus {
    match a {
        Action::Install { .. } => ActionStatus::WillInstall,
        Action::Link { .. } => ActionStatus::WillLink,
        Action::Create { .. } => ActionStatus::WillCreate,
        Action::Shell { .. } => ActionStatus::WillRun,
        Action::Clean { .. } => ActionStatus::WillClean,
    }
}

/// The planned status of an action.
pub fn status_for_action(a: &Action) -> (r: ActionStatus)
    ensures
        r == status_for_action_spec(*a),
{
    match a {
        Action::Install { .. } => ActionStatus::WillInstall,
        Action::Link { .. } => ActionStatus::WillLink,
        Action::Create { .. } => ActionStatus::WillCreate,
        Action::Shell { .. } => ActionStatus::WillRun,
        Action::Clean { .. } => ActionStatus::WillClean,
    }
}

/// The representative status of a list of actions: the worst planned status,
/// the last one among equally bad ones; `WillRun` for no actions.
pub open spec fn primary_status_spec(actions: Seq<Action>) -> ActionStatus
    decreases actions.len(),
{
    if actions.len() == 0 {
        ActionStatus::WillRun
    } else if actions.len() == 1 {
        status_for_action_spec(actions[0])
    } else {
        let prev = primary_status_spec(actions.drop_last());
        let cur = status_for_action_spec(actions.last());
        if rank_of(cur) >= rank_of(prev) {
            cur
        } else {
            prev
        }
    }
}

impl PlanItem {
    /// A representative status: the worst among the actions.
    pub fn primary_status(&self) -> (r: ActionStatus)
        ensures
            r == primary_status_spec(self.actions@),
    {
        if self.actions.len() == 0 {
            return ActionStatus::WillRun;
        }
        let mut best = status_for_action(&self.actions[0]);
        let mut i: usize = 1;
        assert(self.actions@.take(1).drop_last() =~= Seq::<Action>::empty());
        while i < self.actions.len()
            invariant
                1 <= i <= self.actions.len(),
                best == primary_status_spec(self.actions@.take(i as int)),
            decreases self.actions.len() - i,
        {
            let cur = status_for_action(&self.actions[i]);
            assert(self.actions@.take(i + 1).drop_last() =~= self.actions@.take(i as int));
            if cur.rank() >= best.rank() {
                best = cur;
            }
            i += 1;
        }
        assert(self.actions@.take(self.actions.len() as int) =~= self.actions@);
        best
    }
}

/// An action may need sudo on `os`: a shell command naming `sudo`, or any
/// install on Linux.
pub open spec fn action_needs_sudo(a: Action, os: Os) -> bool {
    match a {
        Action::Shell { command, .. } => mentions_sudo(command@),
        Action::Install { .. } => os == Os::Linux,
        _ => false,
    }
}

/// Some action of a selected item may need sudo on `os`.
pub open spec fn plan_needs_sudo(items: Seq<PlanItem>, os: Os) -> bool {
    exists|i: int, a: int|
        0 <= i < items.len() && items[i].selected && 0 <= a < items[i].actions@.len()
            && action_needs_sudo(#[trigger] items[i].actions@[a], os)
}

/// Some selected item has an install action.
pub open spec fn has_selected_install(items: Seq<PlanItem>) -> bool {
    exists|i: int, a: int|
        0 <= i < items.len() && items[i].selected && 0 <= a < items[i].actions@.len()
            && (#[trigger] items[i].actions@[a]) is Install
}

fn item_has_install(item: &PlanItem) -> (r: bool)
    ensures
        r == exists|a: int| 0 <= a < item.actions@.len() && (#[trigger] item.actions@[a]) is Install,
{
    let mut a: usize = 0;
    while a < item.actions.len()
        invariant
            a <= item.actions.len(),
            forall|k: int| 0 <= k < a ==> !(#[trigger] item.actions@[k] is Install),
        decreases item.actions.len() - a,
    {
        match &item.actions[a] {
            Action::Install { .. } => {
                return true;
            },
            _ => {},
        }
        a += 1;
    }
    false
}

/// Whether some selected item has an install action.
pub fn any_selected_install(items: &Vec<PlanItem>) -> (r: bool)
    ensures
        r == has_selected_install(items@),
{
    let mut i: usize = 0;
    while i < items.len()
        invariant
            i <= items.len(),
            forall|j: int, a: int|
                0 <= j < i && items@[j].selected && 0 <= a < items@[j].actions@.len() ==> !(
                #[trigger] items@[j].actions@[a] is Install),
        decreases items.len() - i,
    {
        if items[i].selected && item_has_install(&items[i]) {
            return true;
        }
        i += 1;
    }
    false
}

/// `n` is `o` with the "auto apt update" step selected exactly when some
/// selected item of `o` installs something, and nothing else changed.
pub open spec fn synced(o: Seq<PlanItem>, n: Seq<PlanItem>) -> bool {
    &&& n.len() == o.len()
    &&& forall|i: int|
        0 <= i < n.len() ==> {
            let a = #[trigger] o[i];
            let b = n[i];
            &&& b.id == a.id && b.name == a.name && b.layer == a.layer && b.actions == a.actions
            &&& b.selected == if a.name@ == "auto apt update"@ {
                has_selected_install(o)
            } else {
                a.selected
            }
        }
}

/// Syncing the auto steps a second time changes nothing, as long as no item
/// named "auto apt update" installs anything itself.
pub proof fn lemma_sync_auto_steps_twice(a: Seq<PlanItem>, b: Seq<PlanItem>, c: Seq<PlanItem>)
    requires
        synced(a, b),
        synced(b, c),
        forall|i: int, k: int|
            0 <= i < a.len() && a[i].name@ == "auto apt update"@ && 0 <= k < a[i].actions@.len() ==> !(
            #[trigger] a[i].actions@[k] is Install),
    ensures
        c == b,
{
    assert(has_selected_install(b) == has_selected_install(a)) by {
        if has_selected_install(a) {
            let (i, k) = choose|i: int, k: int|
                0 <= i < a.len() && a[i].selected && 0 <= k < a[i].actions@.len() && (#[trigger] a[i].actions@[k]) is Install;
            assert(b[i].actions@[k] == a[i].actions@[k]);
            assert(b[i].selected);
        }
        if has_selected_install(b) {
            let (i, k) = choose|i: int, k: int|
                0 <= i < b.len() && b[i].selected && 0 <= k < b[i].actions@.len() && (#[trigger] b[i].actions@[k]) is Install;
            assert(b[i] == b[i]);
            assert(a[i].actions@[k] == b[i].actions@[k]);
            assert(a[i].selected);
        }
    }
    assert forall|i: int| 0 <= i < c.len() implies c[i] == b[i] by {
        let ai = a[i];
        let bi = b[i];
        assert(bi.name == ai.name);
        if ai.name@ == "auto apt update"@ {
            assert(bi.selected == has_selected_install(a));
            assert(c[i].selected == has_selected_install(b));
        } else {
            assert(c[i].selected == bi.selected);
        }
    }
    assert(c =~= b);
}

impl Plan {
    /// Whether any selected action may require sudo on `os`. A static check:
    /// shell conditions are not evaluated.
    pub fn needs_sudo(&self, os: Os) -> (r: bool)
        ensures
            r == plan_needs_sudo(self.items@, os),
    {
        let mut i: usize = 0;
        while i < self.items.len()
            invariant
                i <= self.items.len(),
                forall|j: int, a: int|
                    0 <= j < i && self.items@[j].selected && 0 <= a < self.items@[j].actions@.len()
                        ==> !action_needs_sudo(#[trigger] self.items@[j].actions@[a], os),
            decreases self.items.len() - i,
        {
            let item = &self.items[i];
            if item.selected {
                let mut a: usize = 0;
                while a < item.actions.len()
                    invariant
                        a <= item.actions.len(),
                        item == &self.items@[i as int],
                        i < self.items.len(),
                        item.selected,
                        forall|k: int| 0 <= k < a ==> !action_needs_sudo(#[trigger] item.actions@[k], os),
                        forall|j: int, b: int|
                            0 <= j < i && self.items@[j].selected && 0 <= b < self.items@[j].actions@.len()
                                ==> !action_needs_sudo(#[trigger] self.items@[j].actions@[b], os),
                    decreases item.actions.len() - a,
                {
                    let hit = match &item.actions[a] {
                        Action::Shell { command, .. } => command_contains_sudo(command.as_str()),
                        Action::Install { .. } => os == Os::Linux,
                        _ => false,
                    };
                    if hit {
                        assert(action_needs_sudo(self.items@[i as int].actions@[a as int], os));
                        return true;
                    }
                    a += 1;
                }
            }
            i += 1;
        }
        false
    }

    /// Keeps the "auto apt update" step in step with the selection: it is
    /// selected exactly when some selected item installs something.
    pub fn sync_auto_steps(&mut self)
        ensures
            synced(old(self).items@, final(self).items@),
            final(self).id == old(self).id,
            final(self).config_path == old(self).config_path,
            final(self).auto_install_pkg_manager == old(self).auto_install_pkg_manager,
            final(self).mode == old(self).mode,
            final(self).created_at == old(self).created_at,
            final(self).config_hash == old(self).config_hash,
            final(self).host == old(self).host,
    {
        let has = any_selected_install(&self.items);
        let ghost before = self.items@;
        let mut i: usize = 0;
        while i < self.items.len()
            invariant
                i <= self.items.len(),
                self.items@.len() == before.len(),
                has == has_selected_install(before),
                self.id == old(self).id,
                self.config_path == old(self).config_path,
                self.auto_install_pkg_manager == old(self).auto_install_pkg_manager,
                self.mode == old(self).mode,
                self.created_at == old(self).created_at,
                self.config_hash == old(self).config_hash,
                self.host == old(self).host,
                before == old(self).items@,
                forall|k: int|
                    i <= k < before.len() ==> #[trigger] self.items@[k] == before[k],
                forall|k: int|
                    0 <= k < i ==> {
                        let o = #[trigger] before[k];
                        let n = self.items@[k];
                        &&& n.id == o.id && n.name == o.name && n.layer == o.layer && n.actions == o.actions
                        &&& n.selected == if o.name@ == "auto apt update"@ {
                            has
                        } else {
                            o.selected
                        }
                    },
            decreases self.items.len() - i,
        {
            if crate::text::str_eq(self.items[i].name.as_str(), "auto apt update") {
                let mut item = self.items.remove(i);
                item.selected = has;
                self.items.insert(i, item);
            }
            i += 1;
        }
    }
}

/// The selection rule of first-run defaults: an item of a pick-one layer is
/// selected only when no earlier item shares its layer; all others are.
pub open spec fn default_selected(items: Seq<PlanItem>, i: int) -> bool {
    !is_pick_one_layer(items[i].layer@) || forall|j: int| 0 <= j < i ==> items[j].layer@ != items[i].layer@
}

/// Applies first-run selection defaults: pick-one layers select their first
/// item only, all other layers (and misc) select everything.
pub fn apply_smart_defaults(items: &mut Vec<PlanItem>)
    ensures
        final(items)@.len() == old(items)@.len(),
        forall|i: int|
            0 <= i < final(items)@.len() ==> {
                let o = #[trigger] old(items)@[i];
                let n = final(items)@[i];
                &&& n.id == o.id && n.name == o.name && n.layer == o.layer && n.actions == o.actions
                &&& n.selected == default_selected(old(items)@, i)
            },
{
    let ghost before = items@;
    let mut i: usize = 0;
    while i < items.len()
        invariant
            i <= items.len(),
            items@.len() == before.len(),
            before == old(items)@,
            forall|k: int| i <= k < before.len() ==> #[trigger] items@[k] == before[k],
            forall|k: int|
                0 <= k < i ==> {
                    let o = #[trigger] before[k];
                    let n = items@[k];
                    &&& n.id == o.id && n.name == o.name && n.layer == o.layer && n.actions == o.actions
                    &&& n.selected == default_selected(before, k)
                },
        decreases items.len() - i,
    {
        let strategy = if crate::text::str_eq(items[i].layer.as_str(), "misc") {
            LayerStrategy::All
        } else {
            layer_strategy(items[i].layer.as_str())
        };
        proof {
            reveal_strlit("misc");
            reveal_strlit("terminal");
            reveal_strlit("shell");
            assert("misc"@.len() == 4 && "terminal"@.len() == 8 && "shell"@.len() == 5);
        }
        let selected = match strategy {
            LayerStrategy::All => true,
            LayerStrategy::PickOne => {
                let mut first = true;
                let mut j: usize = 0;
                while j < i
                    invariant
                        j <= i < items.len(),
                        items@.len() == before.len(),
                        forall|k: int| 0 <= k < i ==> #[trigger] items@[k].layer == before[k].layer,
                        items@[i as int] == before[i as int],
                        first == forall|k: int| 0 <= k < j ==> before[k].layer@ != before[i as int].layer@,
                    decreases i - j,
                {
                    if crate::text::str_eq(items[j].layer.as_str(), items[i].layer.as_str()) {
                        first = false;
                    }
                    j += 1;
                }
                first
            },
        };
        let mut item = items.remove(i);
        item.selected = selected;
        items.insert(i, item);
        i += 1;
    }
}

} // verus!

verus! {

/// Under the first-run defaults, a pick-one layer has exactly one selected
/// item: its first, and no later one.
pub proof fn lemma_one_selected_per_pick_one_layer(items: Seq<PlanItem>, i: int, j: int)
    requires
        0 <= i < j < items.len(),
        is_pick_one_layer(items[i].layer@),
        items[i].layer@ == items[j].layer@,
        forall|k: int| 0 <= k < items.len() ==> (#[trigger] items[k]).selected == default_selected(items, k),
    ensures
        !items[j].selected,
{
    assert(items[j].selected == default_selected(items, j));
}

/// The start of the default-shell scripts: finds the shell and the user's
/// current login shell.
pub const SHELL_PROBE_HEAD: &'static str = "shell_path=$(command -v ";

/// The rest of the default-shell probe.
pub const SHELL_PROBE_TAIL: &'static str = ") || exit 1; current_shell=$(getent passwd \"$USER\" 2>/dev/null | awk -F: '{print $7}'); if [ -z \"$current_shell\" ] && command -v dscl >/dev/null 2>&1; then current_shell=$(dscl . -read \"/Users/$USER\" UserShell 2>/dev/null | awk '{print $2}'); fi; ";

/// The default-shell condition test.
pub const SHELL_CONDITION_TEST: &'static str = "[ \"$current_shell\" != \"$shell_path\" ]";

/// The default-shell change.
pub const SHELL_CHANGE: &'static str = "if [ \"$current_shell\" = \"$shell_path\" ]; then echo \"default shell already $shell_path\"; exit 0; fi; if ! grep -Fxq \"$shell_path\" /etc/shells; then echo \"$shell_path\" | sudo tee -a /etc/shells >/dev/null; fi; sudo chsh -s \"$shell_path\" \"$USER\"";

/// The condition under which the login shell is changed: the shell exists
/// and is not already the user's shell.
pub open spec fn default_shell_condition_spec(shell: Seq<char>) -> Seq<char> {
    SHELL_PROBE_HEAD@ + sh_quoted(shell) + SHELL_PROBE_TAIL@ + SHELL_CONDITION_TEST@
}

/// The command that makes `shell` the login shell (registering it in
/// `/etc/shells` first when needed).
pub open spec fn default_shell_command_spec(shell: Seq<char>) -> Seq<char> {
    SHELL_PROBE_HEAD@ + sh_quoted(shell) + SHELL_PROBE_TAIL@ + SHELL_CHANGE@
}

/// The guard of the default-shell step.
pub fn default_shell_condition(shell: &str) -> (r: String)
    ensures
        r@ == default_shell_condition_spec(shell@),
{
    let mut s = String::from_str(SHELL_PROBE_HEAD);
    s.append(shell_quote(shell).as_str());
    s.append(SHELL_PROBE_TAIL);
    s.append(SHELL_CONDITION_TEST);
    s
}

/// The command of the default-shell step.
pub fn default_shell_command(shell: &str) -> (r: String)
    ensures
        r@ == default_shell_command_spec(shell@),
{
    let mut s = String::from_str(SHELL_PROBE_HEAD);
    s.append(shell_quote(shell).as_str());
    s.append(SHELL_PROBE_TAIL);
    s.append(SHELL_CHANGE);
    s
}

/// The Homebrew install script.
pub const BREW_INSTALL_CMD: &'static str = "/bin/bash -c \"$(curl -fsSL https://raw.githubusercontent.com/Homebrew/install/HEAD/install.sh)\"";

/// A package-manager bootstrap step: its command and the guard under which it runs.
#[derive(Debug)]
pub struct AutoInstallCmd {
    pub cmd: String,
    pub guard: String,
}

/// The bootstrap step for a package manager, when one is known (Homebrew only).
pub fn auto_pkg_mgr_install_cmd(pkg_mgr: Option<&str>) -> (r: Option<AutoInstallCmd>)
    ensures
        match r {
            Some(c) => crate::text::opt_view(pkg_mgr) == Some("brew"@) && c.cmd@ == BREW_INSTALL_CMD@
                && c.guard@ == "! command -v brew"@,
            None => crate::text::opt_view(pkg_mgr) != Some("brew"@),
        },
{
    match pkg_mgr {
        Some(p) => {
            if crate::text::str_eq(p, "brew") {
                Some(AutoInstallCmd {
                    cmd: String::from_str(BREW_INSTALL_CMD),
                    guard: String::from_str("! command -v brew"),
                })
            } else {
                None
            }
        },
        None => None,
    }
}

} // verus!

verus! {

/// All item ids are distinct.
pub open spec fn ids_distinct(items: Seq<PlanItem>) -> bool {
    forall|i: int, j: int| 0 <= i < j < items.len() ==> items[i].id@ != items[j].id@
}

/// Some item holds the action `x`.
pub open spec fn holds_action(items: Seq<PlanItem>, x: Action) -> bool {
    exists|i: int, a: int| 0 <= i < items.len() && 0 <= a < items[i].actions@.len() && #[trigger] items[i].actions@[a] == x
}

/// The link action a configured link becomes: backups on, relinking off,
/// unless the entry says otherwise.
pub open spec fn link_action_of(l: crate::config::LinkEntry) -> Action {
    Action::Link {
        target: l.target,
        source: l.source,
        backup: match l.backup {
            Some(b) => b,
            None => true,
        },
        relink: match l.relink {
            Some(b) => b,
            None => false,
        },
    }
}

/// Invariant of plan building: distinct ids, all recorded as used.
pub open spec fn ids_tracked(items: Seq<PlanItem>, used: Seq<Seq<char>>) -> bool {
    &&& ids_distinct(items)
    &&& forall|i: int| 0 <= i < items.len() ==> used.contains(#[trigger] items[i].id@)
}

proof fn lemma_push_item(items: Seq<PlanItem>, used: Seq<Seq<char>>, it: PlanItem, base: Seq<char>)
    requires
        ids_tracked(items, used),
        first_free(base, used, it.id@),
    ensures
        ids_tracked(items.push(it), used.push(it.id@)),
        forall|x: Action| holds_action(items, x) ==> holds_action(items.push(it), x),
{
    let n = items.push(it);
    let u = used.push(it.id@);
    let k = choose|k: nat|
        k >= 1 && it.id@ == candidate(base, k) && !used.contains(it.id@) && forall|j: nat|
            1 <= j < k ==> used.contains(#[trigger] candidate(base, j));
    assert(!used.contains(it.id@));
    assert forall|i: int, j: int| 0 <= i < j < n.len() implies n[i].id@ != n[j].id@ by {
        if j == items.len() {
            assert(used.contains(items[i].id@));
        }
    }
    assert forall|i: int| 0 <= i < n.len() implies u.contains(#[trigger] n[i].id@) by {
        if i < items.len() {
            let w = choose|w: int| 0 <= w < used.len() && used[w] == items[i].id@;
            assert(u[w] == n[i].id@);
        } else {
            assert(u[used.len() as int] == n[i].id@);
        }
    }
    assert forall|x: Action| holds_action(items, x) implies holds_action(n, x) by {
        let (i, a) = choose|i: int, a: int| 0 <= i < items.len() && 0 <= a < items[i].actions@.len() && #[trigger] items[i].actions@[a] == x;
        assert(n[i].actions@[a] == x);
    }
}

proof fn lemma_attach(items: Seq<PlanItem>, o: int, it: PlanItem, x: Action)
    requires
        0 <= o < items.len(),
        it.id == items[o].id,
        it.actions@ == items[o].actions@.push(x),
    ensures
        ids_distinct(items) ==> ids_distinct(items.update(o, it)),
        forall|y: Action| holds_action(items, y) ==> holds_action(items.update(o, it), y),
        holds_action(items.update(o, it), x),
{
    let n = items.update(o, it);
    assert forall|y: Action| holds_action(items, y) implies holds_action(n, y) by {
        let (i, a) = choose|i: int, a: int| 0 <= i < items.len() && 0 <= a < items[i].actions@.len() && #[trigger] items[i].actions@[a] == y;
        assert(n[i].actions@[a] == y);
    }
    assert(n[o].actions@[items[o].actions@.len() as int] == x);
}

/// Item `n` is item `o` with possibly more actions appended.
pub open spec fn keeps(o: PlanItem, n: PlanItem) -> bool {
    &&& n.id == o.id && n.name == o.name && n.layer == o.layer
    &&& o.actions@.len() <= n.actions@.len()
    &&& forall|a: int| 0 <= a < o.actions@.len() ==> #[trigger] n.actions@[a] == o.actions@[a]
}

/// The item holds action `x`.
pub open spec fn item_holds(it: PlanItem, x: Action) -> bool {
    exists|a: int| 0 <= a < it.actions@.len() && #[trigger] it.actions@[a] == x
}

/// A fresh misc item named `name` that holds just `x`, unselected.
pub open spec fn fresh_item(it: PlanItem, name: Seq<char>, x: Action) -> bool {
    it.name@ == name && it.layer@ == "misc"@ && it.actions@ == seq![x] && !it.selected
}

/// Every item holds at least one action.
pub open spec fn all_nonempty(items: Seq<PlanItem>) -> bool {
    forall|i: int| 0 <= i < items.len() ==> (#[trigger] items[i]).actions@.len() >= 1
}

/// Where an action for target `t` went, relative to the first `base` items:
/// to the first of them that owns `t`, or, when none does, to a later item.
pub open spec fn attached(items: Seq<PlanItem>, base: int, t: Seq<char>, x: Action) -> bool {
    ||| exists|o: int| 0 <= o < base && #[trigger] first_owner(items, t, o) && item_holds(items[o], x)
    ||| (forall|o: int| 0 <= o < base ==> !owns(#[trigger] items[o], t)) && exists|i: int|
        base <= i < items.len() && item_holds(#[trigger] items[i], x)
}

/// One attach step: `x` appended to the first owner of `t`, or a fresh item
/// named `t` holding `x` appended to the list.
pub open spec fn attach_step(o_items: Seq<PlanItem>, n_items: Seq<PlanItem>, t: Seq<char>, x: Action) -> bool {
    ||| exists|o: int|
        #[trigger] first_owner(o_items, t, o) && n_items == o_items.update(o, n_items[o]) && keeps(
            o_items[o],
            n_items[o],
        ) && n_items[o].actions@ == o_items[o].actions@.push(x)
    ||| (forall|o: int| 0 <= o < o_items.len() ==> !owns(#[trigger] o_items[o], t)) && n_items.len()
        == o_items.len() + 1 && n_items.take(o_items.len() as int) == o_items && fresh_item(
        n_items[o_items.len() as int],
        t,
        x,
    )
}

proof fn lemma_keeps(o: PlanItem, n: PlanItem, t: Seq<char>)
    requires
        keeps(o, n),
        o.actions@.len() >= 1,
    ensures
        owns(o, t) == owns(n, t),
        forall|x: Action| item_holds(o, x) ==> item_holds(n, x),
{
    assert forall|x: Action| item_holds(o, x) implies item_holds(n, x) by {
        let a = choose|a: int| 0 <= a < o.actions@.len() && #[trigger] o.actions@[a] == x;
        assert(n.actions@[a] == x);
    }
}

/// What one attach step keeps of the earlier items.
proof fn lemma_attach_step(p: Seq<PlanItem>, q: Seq<PlanItem>, t: Seq<char>, x: Action)
    requires
        attach_step(p, q, t, x),
        all_nonempty(p),
    ensures
        q.len() >= p.len(),
        q.len() <= p.len() + 1,
        all_nonempty(q),
        forall|i: int| 0 <= i < p.len() ==> keeps(#[trigger] p[i], q[i]),
        forall|i: int| p.len() <= i < q.len() ==> fresh_item(#[trigger] q[i], t, x),
        forall|i: int, a: int|
            0 <= i < q.len() && 0 <= a < q[i].actions@.len() ==> (i < p.len() && a < p[i].actions@.len())
                || #[trigger] q[i].actions@[a] == x,
{
    if exists|o: int|
        #[trigger] first_owner(p, t, o) && q == p.update(o, q[o]) && keeps(p[o], q[o])
            && q[o].actions@ == p[o].actions@.push(x) {
        let o = choose|o: int|
            #[trigger] first_owner(p, t, o) && q == p.update(o, q[o]) && keeps(p[o], q[o])
                && q[o].actions@ == p[o].actions@.push(x);
        assert forall|i: int| 0 <= i < p.len() implies keeps(#[trigger] p[i], q[i]) by {
            if i != o {
                assert(q[i] == p[i]);
            }
        }
        assert forall|i: int| 0 <= i < q.len() implies (#[trigger] q[i]).actions@.len() >= 1 by {
            assert(keeps(p[i], q[i]));
        }
    } else {
        assert forall|i: int| 0 <= i < p.len() implies keeps(#[trigger] p[i], q[i]) by {
            assert(q.take(p.len() as int)[i] == q[i]);
        }
        assert forall|i: int| 0 <= i < q.len() implies (#[trigger] q[i]).actions@.len() >= 1 by {
            if i < p.len() {
                assert(keeps(p[i], q[i]));
            }
        }
    }
}

fn new_item(id: String, name: String, layer: &str, action: Action, selected: bool) -> (r: PlanItem)
    ensures
        r.id == id,
        r.name == name,
        r.layer@ == layer@,
        r.actions@ == seq![action],
        r.selected == selected,
{
    let mut actions = Vec::new();
    actions.push(action);
    PlanItem { id, name, layer: String::from_str(layer), actions, selected }
}

/// Appends `action` to the first item that owns `target`, or adds a misc item
/// for it.
fn attach_or_add(
    items: &mut Vec<PlanItem>,
    used: &mut Vec<String>,
    target: &String,
    action: Action,
)
    requires
        ids_tracked(old(items)@, str_views(old(used)@)),
        old(used)@.len() + 3 < usize::MAX,
    ensures
        ids_tracked(final(items)@, str_views(final(used)@)),
        final(used)@.len() <= old(used)@.len() + 1,
        attach_step(old(items)@, final(items)@, target@, action),
{
    match find_owner(target.as_str(), items) {
        Some(o) => {
            let ghost before = items@;
            let mut it = items.remove(o);
            it.actions.push(action);
            items.insert(o, it);
            proof {
                assert(items@ =~= before.update(o as int, items@[o as int]));
                lemma_attach(before, o as int, items@[o as int], action);
                assert(first_owner(before, target@, o as int));
                assert forall|i: int| 0 <= i < items@.len() implies str_views(used@).contains(
                    #[trigger] items@[i].id@,
                ) by {
                    assert(items@[i].id == before[i].id);
                }
            }
        },
        None => {
            let ghost before = items@;
            let id = unique_id(target.as_str(), used);
            let it = new_item(id, target.clone(), "misc", action, false);
            proof {
                lemma_push_item(before, str_views(old(used)@), it, sanitize_spec(target@));
                reveal_strlit("misc");
            }
            items.push(it);
            proof {
                assert(items@.take(before.len() as int) =~= before);
                assert(str_views(used@).len() == str_views(old(used)@).len() + 1);
            }
        },
    }
}

proof fn lemma_owns_stable(p: Seq<PlanItem>, q: Seq<PlanItem>, n: int, t: Seq<char>)
    requires
        0 <= n <= p.len() <= q.len(),
        all_nonempty(p),
        forall|i: int| 0 <= i < p.len() ==> keeps(#[trigger] p[i], q[i]),
    ensures
        forall|i: int|
            #![trigger owns(p[i], t)]
            #![trigger owns(q[i], t)]
            0 <= i < n ==> owns(p[i], t) == owns(q[i], t),
        forall|i: int, x: Action| 0 <= i < n && #[trigger] item_holds(p[i], x) ==> item_holds(q[i], x),
{
    assert forall|i: int| 0 <= i < n implies owns(#[trigger] p[i], t) == owns(q[i], t) by {
        lemma_keeps(p[i], q[i], t);
    }
    assert forall|i: int, x: Action| 0 <= i < n && #[trigger] item_holds(p[i], x) implies item_holds(
        q[i],
        x,
    ) by {
        lemma_keeps(p[i], q[i], t);
    }
}

/// An earlier attachment survives later steps.
proof fn lemma_attached_stable(p: Seq<PlanItem>, q: Seq<PlanItem>, base: int, t: Seq<char>, x: Action)
    requires
        attached(p, base, t, x),
        0 <= base <= p.len() <= q.len(),
        all_nonempty(p),
        forall|i: int| 0 <= i < p.len() ==> keeps(#[trigger] p[i], q[i]),
    ensures
        attached(q, base, t, x),
{
    lemma_owns_stable(p, q, p.len() as int, t);
    if exists|o: int| 0 <= o < base && #[trigger] first_owner(p, t, o) && item_holds(p[o], x) {
        let o = choose|o: int| 0 <= o < base && #[trigger] first_owner(p, t, o) && item_holds(p[o], x);
        assert(first_owner(q, t, o));
    } else {
        let i = choose|i: int| base <= i < p.len() && item_holds(#[trigger] p[i], x);
        assert(item_holds(q[i], x));
    }
}

/// The attachment made by one step.
proof fn lemma_attached_new(p: Seq<PlanItem>, q: Seq<PlanItem>, base: int, t: Seq<char>, x: Action)
    requires
        attach_step(p, q, t, x),
        0 <= base <= p.len(),
        all_nonempty(p),
        forall|i: int| base <= i < p.len() ==> (#[trigger] p[i]).layer@ == "misc"@,
    ensures
        attached(q, base, t, x),
{
    lemma_attach_step(p, q, t, x);
    lemma_owns_stable(p, q, p.len() as int, t);
    if exists|o: int|
        #[trigger] first_owner(p, t, o) && q == p.update(o, q[o]) && keeps(p[o], q[o])
            && q[o].actions@ == p[o].actions@.push(x) {
        let o = choose|o: int|
            #[trigger] first_owner(p, t, o) && q == p.update(o, q[o]) && keeps(p[o], q[o])
                && q[o].actions@ == p[o].actions@.push(x);
        assert(q[o].actions@[p[o].actions@.len() as int] == x);
        assert(first_owner(q, t, o));
        assert(item_holds(q[o], x));
    } else {
        assert(q[p.len() as int].actions@[0] == x);
        assert(item_holds(q[p.len() as int], x));
    }
}

/// Some pending entry carries action `x`.
pub open spec fn pending_has(pending: Seq<(String, Action)>, x: Action) -> bool {
    exists|k: int| 0 <= k < pending.len() && pending[k].1 == x
}

/// Attaches each pending `(target, action)` in order: to the first item that
/// owns the target, else to a new misc item.
fn attach_each(items: &mut Vec<PlanItem>, used: &mut Vec<String>, pending: &Vec<(String, Action)>) -> (steps: Ghost<
    Seq<Seq<PlanItem>>,
>)
    requires
        ids_tracked(old(items)@, str_views(old(used)@)),
        all_nonempty(old(items)@),
        old(used)@.len() + pending@.len() + 3 < usize::MAX,
    ensures
        ids_tracked(final(items)@, str_views(final(used)@)),
        final(used)@.len() <= old(used)@.len() + pending@.len(),
        all_nonempty(final(items)@),
        final(items)@.len() >= old(items)@.len(),
        forall|i: int| 0 <= i < old(items)@.len() ==> keeps(#[trigger] old(items)@[i], final(items)@[i]),
        forall|i: int|
            old(items)@.len() <= i < final(items)@.len() ==> (#[trigger] final(items)@[i]).layer@
                == "misc"@,
        forall|k: int|
            0 <= k < pending@.len() ==> attached(
                final(items)@,
                old(items)@.len() as int,
                (#[trigger] pending@[k]).0@,
                pending@[k].1,
            ),
        forall|i: int, a: int|
            0 <= i < final(items)@.len() && 0 <= a < final(items)@[i].actions@.len() ==> (i < old(
                items,
            )@.len() && a < old(items)@[i].actions@.len()) || pending_has(
                pending@,
                #[trigger] final(items)@[i].actions@[a],
            ),
        steps@.len() == pending@.len() + 1,
        steps@[0] == old(items)@,
        steps@[pending@.len() as int] == final(items)@,
        forall|k: int|
            0 <= k < pending@.len() ==> attach_step(
                steps@[k],
                steps@[k + 1],
                (#[trigger] pending@[k]).0@,
                pending@[k].1,
            ),
{
    let ghost base = items@;
    let ghost mut st: Seq<Seq<PlanItem>> = seq![items@];
    let mut k: usize = 0;
    while k < pending.len()
        invariant
            k <= pending@.len(),
            base == old(items)@,
            ids_tracked(items@, str_views(used@)),
            used@.len() <= old(used)@.len() + k,
            old(used)@.len() + pending@.len() + 3 < usize::MAX,
            all_nonempty(items@),
            items@.len() >= base.len(),
            forall|i: int| 0 <= i < base.len() ==> keeps(#[trigger] base[i], items@[i]),
            forall|i: int| base.len() <= i < items@.len() ==> (#[trigger] items@[i]).layer@ == "misc"@,
            forall|j: int|
                0 <= j < k ==> attached(items@, base.len() as int, (#[trigger] pending@[j]).0@, pending@[j].1),
            forall|i: int, a: int|
                0 <= i < items@.len() && 0 <= a < items@[i].actions@.len() ==> (i < base.len() && a
                    < base[i].actions@.len()) || pending_has(pending@.take(k as int), #[trigger] items@[i].actions@[a]),
            st.len() == k + 1,
            st[0] == base,
            st[k as int] == items@,
            forall|j: int| 0 <= j < k ==> attach_step(st[j], st[j + 1], (#[trigger] pending@[j]).0@, pending@[j].1),
        decreases pending@.len() - k,
    {
        let t = &pending[k].0;
        let x = pending[k].1.copy();
        let ghost p = items@;
        attach_or_add(items, used, t, x);
        proof {
            let q = items@;
            lemma_attach_step(p, q, t@, x);
            lemma_attached_new(p, q, base.len() as int, t@, x);
            assert forall|i: int| base.len() <= i < q.len() implies (#[trigger] q[i]).layer@ == "misc"@ by {
                if i < p.len() {
                    assert(keeps(p[i], q[i]));
                }
            }
            assert forall|j: int| 0 <= j < k + 1 implies attached(
                q,
                base.len() as int,
                (#[trigger] pending@[j]).0@,
                pending@[j].1,
            ) by {
                if j < k {
                    lemma_attached_stable(p, q, base.len() as int, pending@[j].0@, pending@[j].1);
                }
            }
            assert forall|i: int, a: int|
                0 <= i < q.len() && 0 <= a < q[i].actions@.len() implies (i < base.len() && a
                < base[i].actions@.len()) || pending_has(pending@.take(k + 1), #[trigger] q[i].actions@[a]) by {
                if i < p.len() && a < p[i].actions@.len() {
                    assert(q[i].actions@[a] == p[i].actions@[a]);
                    if !(i < base.len() && a < base[i].actions@.len()) {
                        let j = choose|j: int| 0 <= j < k && pending@.take(k as int)[j].1 == p[i].actions@[a];
                        assert(pending@.take(k + 1)[j] == pending@.take(k as int)[j]);
                    }
                } else {
                    assert(pending@.take(k + 1)[k as int].1 == q[i].actions@[a]);
                }
            }
            let st0 = st;
            st = st.push(q);
            assert forall|j: int| 0 <= j < k + 1 implies attach_step(
                st[j],
                st[j + 1],
                (#[trigger] pending@[j]).0@,
                pending@[j].1,
            ) by {
                if j < k {
                    assert(st[j] == st0[j] && st[j + 1] == st0[j + 1]);
                } else {
                    assert(st[j] == p && st[j + 1] == q);
                }
            }
        }
        k += 1;
    }
    proof {
        assert(pending@.take(k as int) =~= pending@);
    }
    Ghost(st)
}

/// Adds one new misc item per pending `(name, action)`, in order.
fn push_each(items: &mut Vec<PlanItem>, used: &mut Vec<String>, pending: &Vec<(String, Action)>)
    requires
        ids_tracked(old(items)@, str_views(old(used)@)),
        old(used)@.len() + pending@.len() + 3 < usize::MAX,
    ensures
        ids_tracked(final(items)@, str_views(final(used)@)),
        final(used)@.len() == old(used)@.len() + pending@.len(),
        final(items)@.len() == old(items)@.len() + pending@.len(),
        final(items)@.take(old(items)@.len() as int) == old(items)@,
        forall|k: int|
            0 <= k < pending@.len() ==> fresh_item(
                #[trigger] final(items)@[old(items)@.len() + k],
                pending@[k].0@,
                pending@[k].1,
            ),
{
    let ghost base = items@;
    let mut k: usize = 0;
    while k < pending.len()
        invariant
            k <= pending@.len(),
            base == old(items)@,
            ids_tracked(items@, str_views(used@)),
            used@.len() == old(used)@.len() + k,
            old(used)@.len() + pending@.len() + 3 < usize::MAX,
            items@.len() == base.len() + k,
            items@.take(base.len() as int) == base,
            forall|j: int|
                0 <= j < k ==> fresh_item(#[trigger] items@[base.len() + j], pending@[j].0@, pending@[j].1),
        decreases pending@.len() - k,
    {
        let name = pending[k].0.clone();
        let x = pending[k].1.copy();
        let ghost p = items@;
        let ghost u = str_views(used@);
        let id = unique_id(name.as_str(), used);
        let it = new_item(id, name, "misc", x, false);
        proof {
            lemma_push_item(p, u, it, sanitize_spec(pending@[k as int].0@));
            reveal_strlit("misc");
        }
        items.push(it);
        proof {
            assert(items@.take(base.len() as int) =~= p.take(base.len() as int));
            assert(str_views(used@).len() == u.len() + 1);
            assert(items@[base.len() + k] == it);
        }
        k += 1;
    }
}

/// The index of the first item named `name`, if any.
fn find_by_name(items: &Vec<PlanItem>, name: &str) -> (r: Option<usize>)
    ensures
        match r {
            Some(i) => i < items@.len() && items@[i as int].name@ == name@ && forall|j: int|
                0 <= j < i ==> (#[trigger] items@[j]).name@ != name@,
            None => forall|j: int| 0 <= j < items@.len() ==> (#[trigger] items@[j]).name@ != name@,
        },
{
    let mut i: usize = 0;
    while i < items.len()
        invariant
            i <= items@.len(),
            forall|j: int| 0 <= j < i ==> (#[trigger] items@[j]).name@ != name@,
        decreases items@.len() - i,
    {
        if crate::text::str_eq(items[i].name.as_str(), name) {
            return Some(i);
        }
        i += 1;
    }
    None
}

/// `q` is `p` with `x` appended to the actions of item `o`.
pub open spec fn appended_at(p: Seq<PlanItem>, q: Seq<PlanItem>, o: int, x: Action) -> bool {
    &&& 0 <= o < p.len()
    &&& q == p.update(o, q[o])
    &&& keeps(p[o], q[o])
    &&& q[o].actions@ == p[o].actions@.push(x)
}

/// `q` is `p` with a fresh misc item named `name` holding `x` at its end.
pub open spec fn appended_new(p: Seq<PlanItem>, q: Seq<PlanItem>, name: Seq<char>, x: Action) -> bool {
    &&& q.len() == p.len() + 1
    &&& q.take(p.len() as int) == p
    &&& fresh_item(q[p.len() as int], name, x)
}

/// `x` appended to the first item of `p` named `owner`, or, when none is,
/// a fresh misc item named `name` holding `x` appended to the list.
pub open spec fn by_name_step(p: Seq<PlanItem>, q: Seq<PlanItem>, owner: Seq<char>, name: Seq<char>, x: Action) -> bool {
    ||| exists|o: int|
        #[trigger] appended_at(p, q, o, x) && p[o].name@ == owner && forall|j: int|
            0 <= j < o ==> (#[trigger] p[j]).name@ != owner
    ||| (forall|j: int| 0 <= j < p.len() ==> (#[trigger] p[j]).name@ != owner) && appended_new(p, q, name, x)
}

/// Appends `x` to the first item named `owner`, or adds a fresh misc item
/// named `name` for it.
fn attach_by_name(items: &mut Vec<PlanItem>, used: &mut Vec<String>, owner: &str, name: String, x: Action)
    requires
        ids_tracked(old(items)@, str_views(old(used)@)),
        old(used)@.len() + 3 < usize::MAX,
    ensures
        ids_tracked(final(items)@, str_views(final(used)@)),
        final(used)@.len() <= old(used)@.len() + 1,
        by_name_step(old(items)@, final(items)@, owner@, name@, x),
{
    match find_by_name(items, owner) {
        Some(o) => {
            let ghost before = items@;
            let mut it = items.remove(o);
            it.actions.push(x);
            items.insert(o, it);
            proof {
                assert(items@ =~= before.update(o as int, items@[o as int]));
                assert(appended_at(before, items@, o as int, x));
                assert forall|i: int| 0 <= i < items@.len() implies str_views(used@).contains(
                    #[trigger] items@[i].id@,
                ) by {
                    assert(items@[i].id == before[i].id);
                }
                assert forall|i: int, j: int| 0 <= i < j < items@.len() implies items@[i].id@
                    != items@[j].id@ by {
                    assert(items@[i].id == before[i].id);
                    assert(items@[j].id == before[j].id);
                }
            }
        },
        None => {
            let ghost before = items@;
            let id = unique_id(name.as_str(), used);
            let ghost nm = name@;
            let it = new_item(id, name, "misc", x, false);
            proof {
                lemma_push_item(before, str_views(old(used)@), it, sanitize_spec(nm));
                reveal_strlit("misc");
            }
            items.push(it);
            proof {
                assert(items@.take(before.len() as int) =~= before);
                assert(str_views(used@).len() == str_views(old(used)@).len() + 1);
            }
        },
    }
}

} // verus!

verus! {

/// The package-manager bootstrap step applies: it is enabled and the
/// resolved package manager is Homebrew.
pub open spec fn auto_step(config: Config, pkg: Option<Seq<char>>) -> bool {
    config.auto_install_pkg_manager && pkg == Some("brew"@)
}

/// The bootstrap step's action.
pub open spec fn auto_pkg_action_ok(x: Action) -> bool {
    match x {
        Action::Shell { command, description, optional, if_condition } => command@ == BREW_INSTALL_CMD@
            && opt_string_view(description) == Some("Auto-install package manager"@) && !optional
            && opt_string_view(if_condition) == Some("! command -v brew"@),
        _ => false,
    }
}

/// The bootstrap item.
pub open spec fn auto_item_ok(it: PlanItem) -> bool {
    &&& it.name@ == "auto-install package manager"@
    &&& it.layer@ == "misc"@
    &&& it.actions@.len() >= 1
    &&& auto_pkg_action_ok(it.actions@[0])
}

/// The install action of a configured tool.
pub open spec fn install_action_ok(x: Action, tool: Seq<char>) -> bool {
    match x {
        Action::Install { pkg_mgr, binary, source } => pkg_mgr@ == "auto"@ && binary@ == tool && source@
            == "install "@ + tool,
        _ => false,
    }
}

/// The layer of a tool: what the database says, else "software".
pub open spec fn layer_for(db: ToolDb, tool: Seq<char>) -> Seq<char> {
    match tool_layer_spec(db, tool) {
        Some(l) => l@,
        None => "software"@,
    }
}

/// The item of a configured tool: named after it, in its layer, led by its
/// install action.
pub open spec fn install_item_ok(it: PlanItem, tool: Seq<char>, db: ToolDb) -> bool {
    &&& it.name@ == tool
    &&& it.layer@ == layer_for(db, tool)
    &&& it.actions@.len() >= 1
    &&& install_action_ok(it.actions@[0], tool)
}

/// The action of a directory to create.
pub open spec fn create_action_of(t: String) -> Action {
    Action::Create { target: t }
}

/// The action of a configured shell step.
pub open spec fn shell_action_of(e: ShellEntry) -> Action {
    Action::Shell {
        command: e.command,
        description: e.description,
        optional: e.optional,
        if_condition: e.if_condition,
    }
}

/// The item name of a shell step: its description, else its command.
pub open spec fn shell_item_name(e: ShellEntry) -> Seq<char> {
    match e.description {
        Some(d) => d@,
        None => e.command@,
    }
}

/// The action of a configured clean step.
pub open spec fn clean_action_of(e: CleanEntry) -> Action {
    Action::Clean { target: e.target, force: e.force }
}

/// The item name and description of the default-shell step.
pub open spec fn default_shell_name(sh: Seq<char>) -> Seq<char> {
    "Set default shell to "@ + sh
}

/// The action that makes `sh` the login shell.
pub open spec fn default_shell_action_ok(x: Action, sh: Seq<char>) -> bool {
    match x {
        Action::Shell { command, description, optional, if_condition } => command@
            == default_shell_command_spec(sh) && opt_string_view(description) == Some(
            default_shell_name(sh),
        ) && !optional && opt_string_view(if_condition) == Some(default_shell_condition_spec(sh)),
        _ => false,
    }
}

/// The apt cache refresh action.
pub open spec fn apt_action_ok(x: Action) -> bool {
    match x {
        Action::Shell { command, description, optional, if_condition } => command@
            == "sudo apt-get update -qq"@ && opt_string_view(description) == Some(
            "Update apt package cache"@,
        ) && !optional && if_condition is None,
        _ => false,
    }
}

/// The apt cache refresh item: selected, misc, that one action.
pub open spec fn apt_item_ok(it: PlanItem) -> bool {
    &&& it.name@ == "auto apt update"@
    &&& it.layer@ == "misc"@
    &&& it.selected
    &&& it.actions@.len() == 1
    &&& apt_action_ok(it.actions@[0])
}

/// A misc item named `name` holding exactly `x`.
pub open spec fn misc_item_of(it: PlanItem, name: Seq<char>, x: Action) -> bool {
    it.name@ == name && it.layer@ == "misc"@ && it.actions@ == seq![x]
}

/// `x` is an action the configuration asks for.
pub open spec fn configured(config: Config, pkg: Option<Seq<char>>, x: Action) -> bool {
    ||| auto_step(config, pkg) && auto_pkg_action_ok(x)
    ||| exists|t: int| 0 <= t < config.install@.len() && install_action_ok(x, (#[trigger] config.install@[t])@)
    ||| exists|l: int| 0 <= l < config.links@.len() && x == link_action_of(#[trigger] config.links@[l])
    ||| exists|c: int| 0 <= c < config.create@.len() && x == create_action_of(#[trigger] config.create@[c])
    ||| match config.default_shell {
        Some(sh) => default_shell_action_ok(x, sh@),
        None => false,
    }
    ||| exists|k: int| 0 <= k < config.shell@.len() && x == shell_action_of(#[trigger] config.shell@[k])
    ||| exists|c: int| 0 <= c < config.clean@.len() && x == clean_action_of(#[trigger] config.clean@[c])
}

/// Every action of every item is one the configuration asks for.
pub open spec fn all_configured(items: Seq<PlanItem>, config: Config, pkg: Option<Seq<char>>) -> bool {
    forall|i: int, a: int|
        0 <= i < items.len() && 0 <= a < items[i].actions@.len() ==> configured(
            config,
            pkg,
            #[trigger] items[i].actions@[a],
        )
}

/// The default-shell step's action is held by one of the first `n` items.
pub open spec fn default_shell_held(items: Seq<PlanItem>, n: int, sh: Seq<char>) -> bool {
    exists|i: int, a: int|
        0 <= i < n && 0 <= a < items[i].actions@.len() && default_shell_action_ok(
            #[trigger] items[i].actions@[a],
            sh,
        )
}

/// The items of a plan before the apt refresh step, for a configuration, the
/// tool database and the resolved package manager:
/// - the bootstrap item first, when it applies, then one item per tool;
/// - each link and directory attached to the first tool item that owns its
///   target, else to a misc item after the tool items;
/// - the default-shell action somewhere before the shell and clean items;
/// - one misc item per shell step, then one per clean step, at the end;
/// - the first-run selection defaults;
/// - distinct ids, and no action the configuration does not ask for.
pub open spec fn plan_items_ok(rest: Seq<PlanItem>, config: Config, db: ToolDb, pkg: Option<Seq<char>>) -> bool {
    let k: int = if auto_step(config, pkg) {
        1
    } else {
        0
    };
    let b: int = k + config.install@.len();
    let n: int = rest.len() as int;
    let ns: int = config.shell@.len() as int;
    let nc: int = config.clean@.len() as int;
    &&& ids_distinct(rest)
    &&& b + ns + nc <= n
    &&& auto_step(config, pkg) ==> auto_item_ok(rest[0])
    &&& forall|t: int|
        0 <= t < config.install@.len() ==> install_item_ok(#[trigger] rest[k + t], config.install@[t]@, db)
    &&& forall|l: int|
        0 <= l < config.links@.len() ==> attached(
            rest,
            b,
            (#[trigger] config.links@[l]).target@,
            link_action_of(config.links@[l]),
        )
    &&& forall|c: int|
        0 <= c < config.create@.len() ==> attached(
            rest,
            b,
            (#[trigger] config.create@[c])@,
            create_action_of(config.create@[c]),
        )
    &&& match config.default_shell {
        Some(sh) => default_shell_held(rest, n - ns - nc, sh@),
        None => true,
    }
    &&& forall|j: int|
        0 <= j < ns ==> misc_item_of(
            #[trigger] rest[n - ns - nc + j],
            shell_item_name(config.shell@[j]),
            shell_action_of(config.shell@[j]),
        )
    &&& forall|c: int|
        0 <= c < nc ==> misc_item_of(
            #[trigger] rest[n - nc + c],
            config.clean@[c].target@,
            clean_action_of(config.clean@[c]),
        )
    &&& forall|i: int| 0 <= i < n ==> (#[trigger] rest[i]).selected == default_selected(rest, i)
    &&& all_configured(rest, config, pkg)
}

/// Two items agree in all but their selection.
pub open spec fn same_but_selected(a: PlanItem, b: PlanItem) -> bool {
    a.id == b.id && a.name == b.name && a.layer == b.layer && a.actions == b.actions
}

/// How the items of a plan (before the apt refresh step) come about, stage
/// by stage, with nothing else added:
/// - `ls[0]`: the bootstrap item, when it applies, then one item per tool,
///   each holding just its one action;
/// - `ls`: then each link in order, by one attach step (appended to the first
///   item that owns its target, else a fresh misc item);
/// - `cs`: from there each directory in order, the same way;
/// - `s4`: from there the default-shell action `dx`, when there is a default
///   shell, appended to the first item named after the shell, else a fresh
///   misc item;
/// - `rest`: `s4`'s items, then one misc item per shell step and one per
///   clean step, each holding just its action; only the selection changes.
pub open spec fn plan_stages_ok(
    rest: Seq<PlanItem>,
    config: Config,
    db: ToolDb,
    pkg: Option<Seq<char>>,
    ls: Seq<Seq<PlanItem>>,
    cs: Seq<Seq<PlanItem>>,
    s4: Seq<PlanItem>,
    dx: Action,
) -> bool {
    let k: int = if auto_step(config, pkg) {
        1
    } else {
        0
    };
    let nl: int = config.links@.len() as int;
    let nk: int = config.create@.len() as int;
    let ns: int = config.shell@.len() as int;
    let nc: int = config.clean@.len() as int;
    &&& ls.len() == nl + 1
    &&& cs.len() == nk + 1
    &&& ls[0].len() == k + config.install@.len()
    &&& auto_step(config, pkg) ==> auto_item_ok(ls[0][0]) && ls[0][0].actions@.len() == 1
    &&& forall|t: int|
        0 <= t < config.install@.len() ==> install_item_ok(#[trigger] ls[0][k + t], config.install@[t]@, db)
            && ls[0][k + t].actions@.len() == 1
    &&& forall|l: int|
        0 <= l < nl ==> attach_step(
            ls[l],
            ls[l + 1],
            (#[trigger] config.links@[l]).target@,
            link_action_of(config.links@[l]),
        )
    &&& cs[0] == ls[nl]
    &&& forall|c: int|
        0 <= c < nk ==> attach_step(cs[c], cs[c + 1], (#[trigger] config.create@[c])@, create_action_of(config.create@[c]))
    &&& match config.default_shell {
        Some(sh) => default_shell_action_ok(dx, sh@) && by_name_step(cs[nk], s4, sh@, default_shell_name(sh@), dx),
        None => s4 == cs[nk],
    }
    &&& rest.len() == s4.len() + ns + nc
    &&& forall|i: int| 0 <= i < s4.len() ==> same_but_selected(#[trigger] rest[i], s4[i])
    &&& forall|j: int|
        0 <= j < ns ==> misc_item_of(
            #[trigger] rest[s4.len() + j],
            shell_item_name(config.shell@[j]),
            shell_action_of(config.shell@[j]),
        )
    &&& forall|c: int|
        0 <= c < nc ==> misc_item_of(
            #[trigger] rest[s4.len() + ns + c],
            config.clean@[c].target@,
            clean_action_of(config.clean@[c]),
        )
}

/// The apt refresh step: put first, selected, when the package manager is
/// apt and some selected item installs; otherwise nothing is added.
pub open spec fn apt_step_ok(r: Seq<PlanItem>, rest: Seq<PlanItem>, pkg: Option<Seq<char>>) -> bool {
    if pkg == Some("apt"@) && has_selected_install(rest) {
        r.len() == rest.len() + 1 && r.drop_first() == rest && apt_item_ok(r[0])
    } else {
        r == rest
    }
}

/// The pending link attachments, in order.
fn link_pending(links: &Vec<LinkEntry>) -> (r: Vec<(String, Action)>)
    ensures
        r@.len() == links@.len(),
        forall|k: int|
            0 <= k < links@.len() ==> (#[trigger] r@[k]).0 == links@[k].target && r@[k].1 == link_action_of(
                links@[k],
            ),
{
    let mut r: Vec<(String, Action)> = Vec::new();
    let mut k: usize = 0;
    while k < links.len()
        invariant
            k <= links@.len(),
            r@.len() == k,
            forall|j: int|
                0 <= j < k ==> (#[trigger] r@[j]).0 == links@[j].target && r@[j].1 == link_action_of(
                    links@[j],
                ),
        decreases links@.len() - k,
    {
        let l = &links[k];
        let backup = match l.backup {
            Some(b) => b,
            None => true,
        };
        let relink = match l.relink {
            Some(b) => b,
            None => false,
        };
        let x = Action::Link { target: l.target.clone(), source: l.source.clone(), backup, relink };
        r.push((l.target.clone(), x));
        k += 1;
    }
    r
}

/// The pending directory attachments, in order.
fn create_pending(creates: &Vec<String>) -> (r: Vec<(String, Action)>)
    ensures
        r@.len() == creates@.len(),
        forall|k: int|
            0 <= k < creates@.len() ==> (#[trigger] r@[k]).0 == creates@[k] && r@[k].1 == create_action_of(
                creates@[k],
            ),
{
    let mut r: Vec<(String, Action)> = Vec::new();
    let mut k: usize = 0;
    while k < creates.len()
        invariant
            k <= creates@.len(),
            r@.len() == k,
            forall|j: int|
                0 <= j < k ==> (#[trigger] r@[j]).0 == creates@[j] && r@[j].1 == create_action_of(
                    creates@[j],
                ),
        decreases creates@.len() - k,
    {
        let t = &creates[k];
        r.push((t.clone(), Action::Create { target: t.clone() }));
        k += 1;
    }
    r
}

/// The pending shell items: name and action, in order.
fn shell_pending(shells: &Vec<ShellEntry>) -> (r: Vec<(String, Action)>)
    ensures
        r@.len() == shells@.len(),
        forall|k: int|
            0 <= k < shells@.len() ==> (#[trigger] r@[k]).0@ == shell_item_name(shells@[k]) && r@[k].1
                == shell_action_of(shells@[k]),
{
    let mut r: Vec<(String, Action)> = Vec::new();
    let mut k: usize = 0;
    while k < shells.len()
        invariant
            k <= shells@.len(),
            r@.len() == k,
            forall|j: int|
                0 <= j < k ==> (#[trigger] r@[j]).0@ == shell_item_name(shells@[j]) && r@[j].1
                    == shell_action_of(shells@[j]),
        decreases shells@.len() - k,
    {
        let e = &shells[k];
        let name = match &e.description {
            Some(d) => d.clone(),
            None => e.command.clone(),
        };
        let x = Action::Shell {
            command: e.command.clone(),
            description: clone_opt(&e.description),
            optional: e.optional,
            if_condition: clone_opt(&e.if_condition),
        };
        r.push((name, x));
        k += 1;
    }
    r
}

/// The pending clean items: name and action, in order.
fn clean_pending(cleans: &Vec<CleanEntry>) -> (r: Vec<(String, Action)>)
    ensures
        r@.len() == cleans@.len(),
        forall|k: int|
            0 <= k < cleans@.len() ==> (#[trigger] r@[k]).0 == cleans@[k].target && r@[k].1
                == clean_action_of(cleans@[k]),
{
    let mut r: Vec<(String, Action)> = Vec::new();
    let mut k: usize = 0;
    while k < cleans.len()
        invariant
            k <= cleans@.len(),
            r@.len() == k,
            forall|j: int|
                0 <= j < k ==> (#[trigger] r@[j]).0 == cleans@[j].target && r@[j].1 == clean_action_of(
                    cleans@[j],
                ),
        decreases cleans@.len() - k,
    {
        let e = &cleans[k];
        r.push((e.target.clone(), Action::Clean { target: e.target.clone(), force: e.force }));
        k += 1;
    }
    r
}

/// Adds one item per configured tool, in order.
fn add_installs(items: &mut Vec<PlanItem>, used: &mut Vec<String>, tools: &Vec<String>, db: &ToolDb)
    requires
        ids_tracked(old(items)@, str_views(old(used)@)),
        old(used)@.len() + tools@.len() + 3 < usize::MAX,
    ensures
        ids_tracked(final(items)@, str_views(final(used)@)),
        final(used)@.len() == old(used)@.len() + tools@.len(),
        final(items)@.len() == old(items)@.len() + tools@.len(),
        final(items)@.take(old(items)@.len() as int) == old(items)@,
        forall|t: int|
            0 <= t < tools@.len() ==> install_item_ok(
                #[trigger] final(items)@[old(items)@.len() + t],
                tools@[t]@,
                *db,
            ) && final(items)@[old(items)@.len() + t].actions@.len() == 1,
{
    let ghost base = items@;
    let mut t: usize = 0;
    while t < tools.len()
        invariant
            t <= tools@.len(),
            base == old(items)@,
            ids_tracked(items@, str_views(used@)),
            used@.len() == old(used)@.len() + t,
            old(used)@.len() + tools@.len() + 3 < usize::MAX,
            items@.len() == base.len() + t,
            items@.take(base.len() as int) == base,
            forall|j: int|
                0 <= j < t ==> install_item_ok(#[trigger] items@[base.len() + j], tools@[j]@, *db)
                    && items@[base.len() + j].actions@.len() == 1,
        decreases tools@.len() - t,
    {
        let tool = &tools[t];
        let layer = match tool_layer(db, tool.as_str()) {
            Some(l) => l,
            None => String::from_str("software"),
        };
        let ghost p = items@;
        let ghost u = str_views(used@);
        let id = unique_id(tool.as_str(), used);
        let mut source = String::from_str("install ");
        source.append(tool.as_str());
        let x = Action::Install { pkg_mgr: String::from_str("auto"), binary: tool.clone(), source };
        let mut actions: Vec<Action> = Vec::new();
        actions.push(x);
        let it = PlanItem { id, name: tool.clone(), layer, actions, selected: false };
        proof {
            lemma_push_item(p, u, it, sanitize_spec(tool@));
            reveal_strlit("software");
        }
        items.push(it);
        proof {
            assert(items@.take(base.len() as int) =~= p.take(base.len() as int));
            assert(str_views(used@).len() == u.len() + 1);
            assert(items@[base.len() + t] == it);
        }
        t += 1;
    }
}

/// Each item of `p` stands in `q` at the same place, with possibly more
/// actions appended.
pub open spec fn stable(p: Seq<PlanItem>, q: Seq<PlanItem>) -> bool {
    p.len() <= q.len() && forall|i: int| 0 <= i < p.len() ==> keeps(#[trigger] p[i], q[i])
}

proof fn lemma_stable_trans(a: Seq<PlanItem>, b: Seq<PlanItem>, c: Seq<PlanItem>)
    requires
        stable(a, b),
        stable(b, c),
    ensures
        stable(a, c),
{
    assert forall|i: int| 0 <= i < a.len() implies keeps(#[trigger] a[i], c[i]) by {
        assert(keeps(a[i], b[i]));
        assert(keeps(b[i], c[i]));
        assert forall|k: int| 0 <= k < a[i].actions@.len() implies #[trigger] c[i].actions@[k]
            == a[i].actions@[k] by {
            assert(c[i].actions@[k] == b[i].actions@[k]);
        }
    }
}

proof fn lemma_take_stable(p: Seq<PlanItem>, q: Seq<PlanItem>)
    requires
        p.len() <= q.len(),
        q.take(p.len() as int) == p,
    ensures
        stable(p, q),
        forall|i: int| 0 <= i < p.len() ==> #[trigger] q[i] == p[i],
{
    assert forall|i: int| 0 <= i < p.len() implies #[trigger] q[i] == p[i] by {
        assert(q.take(p.len() as int)[i] == q[i]);
    }
}

proof fn lemma_by_name_step(p: Seq<PlanItem>, q: Seq<PlanItem>, owner: Seq<char>, name: Seq<char>, x: Action)
    requires
        by_name_step(p, q, owner, name, x),
        all_nonempty(p),
    ensures
        stable(p, q),
        all_nonempty(q),
        q.len() <= p.len() + 1,
        exists|i: int, a: int| 0 <= i < q.len() && 0 <= a < q[i].actions@.len() && #[trigger] q[i].actions@[a] == x,
        forall|i: int, a: int|
            0 <= i < q.len() && 0 <= a < q[i].actions@.len() ==> (i < p.len() && a < p[i].actions@.len())
                || #[trigger] q[i].actions@[a] == x,
{
    if exists|o: int|
        #[trigger] appended_at(p, q, o, x) && p[o].name@ == owner && forall|j: int|
            0 <= j < o ==> (#[trigger] p[j]).name@ != owner {
        let o = choose|o: int|
            #[trigger] appended_at(p, q, o, x) && p[o].name@ == owner && forall|j: int|
                0 <= j < o ==> (#[trigger] p[j]).name@ != owner;
        assert forall|i: int| 0 <= i < p.len() implies keeps(#[trigger] p[i], q[i]) by {
            if i != o {
                assert(q[i] == p[i]);
            }
        }
        assert forall|i: int| 0 <= i < q.len() implies (#[trigger] q[i]).actions@.len() >= 1 by {
            assert(keeps(p[i], q[i]));
        }
        assert(q[o].actions@[p[o].actions@.len() as int] == x);
        assert forall|i: int, a: int|
            0 <= i < q.len() && 0 <= a < q[i].actions@.len() implies (i < p.len() && a < p[i].actions@.len())
            || #[trigger] q[i].actions@[a] == x by {
            if i != o {
                assert(q[i] == p[i]);
            }
        }
    } else {
        lemma_take_stable(p, q);
        assert forall|i: int| 0 <= i < q.len() implies (#[trigger] q[i]).actions@.len() >= 1 by {
            if i < p.len() {
                assert(q[i] == p[i]);
            }
        }
        assert(q[p.len() as int].actions@[0] == x);
    }
}

/// An attachment relative to `b2` is one relative to `b` when the items in
/// between are misc.
proof fn lemma_attached_lower(items: Seq<PlanItem>, b: int, b2: int, t: Seq<char>, x: Action)
    requires
        0 <= b <= b2 <= items.len(),
        attached(items, b2, t, x),
        forall|i: int| b <= i < b2 ==> (#[trigger] items[i]).layer@ == "misc"@,
    ensures
        attached(items, b, t, x),
{
    reveal_strlit("misc");
    if exists|o: int| 0 <= o < b2 && #[trigger] first_owner(items, t, o) && item_holds(items[o], x) {
        let o = choose|o: int| 0 <= o < b2 && #[trigger] first_owner(items, t, o) && item_holds(items[o], x);
        if o >= b {
            assert(items[o].layer@ == "misc"@);
        }
    } else {
        let i = choose|i: int| b2 <= i < items.len() && item_holds(#[trigger] items[i], x);
        assert(b <= i < items.len() && item_holds(items[i], x));
    }
}

/// The name and action of the default-shell step.
fn default_shell_step(sh: &str) -> (r: (String, Action))
    ensures
        r.0@ == default_shell_name(sh@),
        default_shell_action_ok(r.1, sh@),
{
    let mut name = String::from_str("Set default shell to ");
    name.append(sh);
    let x = Action::Shell {
        command: default_shell_command(sh),
        description: Some(name.clone()),
        optional: false,
        if_condition: Some(default_shell_condition(sh)),
    };
    (name, x)
}

/// The assembly of the plan-building steps into the contract of the items.
#[verifier::rlimit(60)]
proof fn lemma_plan_items(
    config: Config,
    db: ToolDb,
    pkg: Option<Seq<char>>,
    s0: Seq<PlanItem>,
    s1: Seq<PlanItem>,
    s2: Seq<PlanItem>,
    s3: Seq<PlanItem>,
    s4: Seq<PlanItem>,
    s5: Seq<PlanItem>,
    s6: Seq<PlanItem>,
    rest: Seq<PlanItem>,
    links: Seq<(String, Action)>,
    creates: Seq<(String, Action)>,
    shells: Seq<(String, Action)>,
    cleans: Seq<(String, Action)>,
)
    requires
        s0.len() == (if auto_step(config, pkg) { 1int } else { 0int }),
        auto_step(config, pkg) ==> auto_item_ok(s0[0]),
        all_nonempty(s0),
        s1.len() == s0.len() + config.install@.len(),
        s1.take(s0.len() as int) == s0,
        forall|t: int|
            0 <= t < config.install@.len() ==> install_item_ok(#[trigger] s1[s0.len() + t], config.install@[t]@, db)
                && s1[s0.len() + t].actions@.len() == 1,
        links.len() == config.links@.len(),
        forall|k: int|
            0 <= k < links.len() ==> (#[trigger] links[k]).0 == config.links@[k].target && links[k].1
                == link_action_of(config.links@[k]),
        all_nonempty(s2),
        stable(s1, s2),
        forall|i: int| s1.len() <= i < s2.len() ==> (#[trigger] s2[i]).layer@ == "misc"@,
        forall|k: int| 0 <= k < links.len() ==> attached(s2, s1.len() as int, (#[trigger] links[k]).0@, links[k].1),
        creates.len() == config.create@.len(),
        forall|k: int|
            0 <= k < creates.len() ==> (#[trigger] creates[k]).0 == config.create@[k] && creates[k].1
                == create_action_of(config.create@[k]),
        all_nonempty(s3),
        stable(s2, s3),
        forall|i: int| s2.len() <= i < s3.len() ==> (#[trigger] s3[i]).layer@ == "misc"@,
        forall|k: int| 0 <= k < creates.len() ==> attached(s3, s2.len() as int, (#[trigger] creates[k]).0@, creates[k].1),
        match config.default_shell {
            Some(sh) => default_shell_held(s4, s4.len() as int, sh@),
            None => s4 == s3,
        },
        stable(s3, s4),
        all_nonempty(s4),
        shells.len() == config.shell@.len(),
        forall|k: int|
            0 <= k < shells.len() ==> (#[trigger] shells[k]).0@ == shell_item_name(config.shell@[k])
                && shells[k].1 == shell_action_of(config.shell@[k]),
        s5.len() == s4.len() + shells.len(),
        s5.take(s4.len() as int) == s4,
        forall|k: int| 0 <= k < shells.len() ==> fresh_item(#[trigger] s5[s4.len() + k], shells[k].0@, shells[k].1),
        cleans.len() == config.clean@.len(),
        forall|k: int|
            0 <= k < cleans.len() ==> (#[trigger] cleans[k]).0 == config.clean@[k].target && cleans[k].1
                == clean_action_of(config.clean@[k]),
        s6.len() == s5.len() + cleans.len(),
        s6.take(s5.len() as int) == s5,
        forall|k: int| 0 <= k < cleans.len() ==> fresh_item(#[trigger] s6[s5.len() + k], cleans[k].0@, cleans[k].1),
        ids_distinct(s6),
        all_configured(s6, config, pkg),
        rest.len() == s6.len(),
        forall|i: int|
            0 <= i < rest.len() ==> {
                let o = #[trigger] s6[i];
                let n = rest[i];
                &&& n.id == o.id && n.name == o.name && n.layer == o.layer && n.actions == o.actions
                &&& n.selected == default_selected(s6, i)
            },
    ensures
        plan_items_ok(rest, config, db, pkg),
{
    let k: int = s0.len() as int;
    let b: int = s1.len() as int;
    lemma_take_stable(s0, s1);
    lemma_take_stable(s4, s5);
    lemma_take_stable(s5, s6);
    assert(stable(s6, rest)) by {
        assert forall|i: int| 0 <= i < s6.len() implies keeps(#[trigger] s6[i], rest[i]) by {
            assert(rest[i].actions == s6[i].actions);
        }
    }
    lemma_stable_trans(s5, s6, rest);
    lemma_stable_trans(s4, s5, rest);
    lemma_stable_trans(s3, s4, rest);
    lemma_stable_trans(s2, s3, rest);
    lemma_stable_trans(s1, s2, rest);
    lemma_stable_trans(s0, s1, rest);
    // ids
    assert(ids_distinct(rest)) by {
        assert forall|i: int, j: int| 0 <= i < j < rest.len() implies rest[i].id@ != rest[j].id@ by {
            assert(rest[i].id == s6[i].id);
            assert(rest[j].id == s6[j].id);
        }
    }
    // the bootstrap item
    if auto_step(config, pkg) {
        assert(keeps(s0[0], rest[0]));
        assert(rest[0].actions@[0] == s0[0].actions@[0]);
    }
    // the tool items
    assert forall|t: int| 0 <= t < config.install@.len() implies install_item_ok(
        #[trigger] rest[k + t],
        config.install@[t]@,
        db,
    ) by {
        assert(install_item_ok(s1[s0.len() + t], config.install@[t]@, db));
        assert(keeps(s1[k + t], rest[k + t]));
        assert(rest[k + t].actions@[0] == s1[k + t].actions@[0]);
    }
    // links
    assert forall|l: int| 0 <= l < config.links@.len() implies attached(
        rest,
        b,
        (#[trigger] config.links@[l]).target@,
        link_action_of(config.links@[l]),
    ) by {
        assert(attached(s2, b, links[l].0@, links[l].1));
        lemma_attached_stable(s2, rest, b, links[l].0@, links[l].1);
    }
    // directories
    assert forall|c: int| 0 <= c < config.create@.len() implies attached(
        rest,
        b,
        (#[trigger] config.create@[c])@,
        create_action_of(config.create@[c]),
    ) by {
        assert(attached(s3, s2.len() as int, creates[c].0@, creates[c].1));
        assert forall|i: int| b <= i < s2.len() implies (#[trigger] s3[i]).layer@ == "misc"@ by {
            assert(keeps(s2[i], s3[i]));
            assert(s2[i].layer@ == "misc"@);
        }
        lemma_attached_lower(s3, b, s2.len() as int, creates[c].0@, creates[c].1);
        lemma_attached_stable(s3, rest, b, creates[c].0@, creates[c].1);
    }
    let n: int = rest.len() as int;
    let ns: int = config.shell@.len() as int;
    let nc: int = config.clean@.len() as int;
    assert(n - ns - nc == s4.len());
    // the default shell
    match config.default_shell {
        Some(sh) => {
            let (i, a) = choose|i: int, a: int|
                0 <= i < s4.len() && 0 <= a < s4[i].actions@.len() && default_shell_action_ok(
                    #[trigger] s4[i].actions@[a],
                    sh@,
                );
            assert(keeps(s4[i], rest[i]));
            assert(rest[i].actions@[a] == s4[i].actions@[a]);
            assert(default_shell_held(rest, n - ns - nc, sh@));
        },
        None => {},
    }
    // shell and clean items
    assert forall|j: int| 0 <= j < ns implies misc_item_of(
        #[trigger] rest[n - ns - nc + j],
        shell_item_name(config.shell@[j]),
        shell_action_of(config.shell@[j]),
    ) by {
        assert(fresh_item(s5[s4.len() + j], shells[j].0@, shells[j].1));
        assert(s6[s4.len() + j] == s5[s4.len() + j]);
    }
    assert forall|c: int| 0 <= c < nc implies misc_item_of(
        #[trigger] rest[n - nc + c],
        config.clean@[c].target@,
        clean_action_of(config.clean@[c]),
    ) by {
        assert(fresh_item(s6[s5.len() + c], cleans[c].0@, cleans[c].1));
    }
    // selection
    assert forall|i: int| 0 <= i < n implies (#[trigger] rest[i]).selected == default_selected(rest, i) by {
        assert forall|j: int| 0 <= j < n implies (#[trigger] rest[j]).layer == s6[j].layer by {
            assert(rest[j].layer == s6[j].layer);
        }
        assert(rest[i].selected == default_selected(s6, i));
    }
    // provenance
    assert forall|i: int, a: int| 0 <= i < n && 0 <= a < rest[i].actions@.len() implies configured(
        config,
        pkg,
        #[trigger] rest[i].actions@[a],
    ) by {
        assert(rest[i].actions == s6[i].actions);
        assert(rest[i].actions@[a] == s6[i].actions@[a]);
    }
}

/// The items of a plan: steps 0b to 7a of plan building, on the tool
/// database and the resolved package manager.
#[verifier::rlimit(100)]
#[verifier::spinoff_prover]
pub fn build_items(config: &Config, db: &ToolDb, pkg_mgr: Option<&str>) -> (r: Vec<PlanItem>)
    requires
        config.install@.len() + config.links@.len() + config.create@.len() + config.shell@.len()
            + config.clean@.len() + 8 < usize::MAX,
    ensures
        ids_distinct(r@),
        exists|rest: Seq<PlanItem>, ls: Seq<Seq<PlanItem>>, cs: Seq<Seq<PlanItem>>, s4: Seq<PlanItem>, dx: Action|
            plan_items_ok(rest, *config, *db, opt_view(pkg_mgr)) && #[trigger] plan_stages_ok(
                rest,
                *config,
                *db,
                opt_view(pkg_mgr),
                ls,
                cs,
                s4,
                dx,
            ) && apt_step_ok(r@, rest, opt_view(pkg_mgr)),
{
    let ghost pkg = opt_view(pkg_mgr);
    let mut items: Vec<PlanItem> = Vec::new();
    let mut used: Vec<String> = Vec::new();
    // Step 0b: the package-manager bootstrap runs before the install items.
    if config.auto_install_pkg_manager {
        match auto_pkg_mgr_install_cmd(pkg_mgr) {
            Some(cmd) => {
                let ghost u0 = str_views(used@);
                let id = unique_id("auto-pkg-mgr", &mut used);
                let x = Action::Shell {
                    command: cmd.cmd,
                    description: Some(String::from_str("Auto-install package manager")),
                    optional: false,
                    if_condition: Some(cmd.guard),
                };
                let it = new_item(id, String::from_str("auto-install package manager"), "misc", x, true);
                proof {
                    lemma_push_item(items@, u0, it, sanitize_spec("auto-pkg-mgr"@));
                }
                items.push(it);
                proof {
                    reveal_strlit("misc");
                    assert(str_views(used@) =~= u0.push(it.id@));
                    assert(items@[0].actions@[0] == x);
                }
            },
            None => {},
        }
    }
    let ghost s0 = items@;
    proof {
        assert(s0.len() == (if auto_step(*config, pkg) { 1int } else { 0int }));
        assert(ids_tracked(s0, str_views(used@)));
        assert(all_nonempty(s0));
        assert(all_configured(s0, *config, pkg));
    }
    // Step 1: one item per tool, in the layer the database gives it.
    add_installs(&mut items, &mut used, &config.install, db);
    let ghost s1 = items@;
    proof {
        lemma_take_stable(s0, s1);
        assert forall|i: int| 0 <= i < s1.len() implies (#[trigger] s1[i]).actions@.len() >= 1 by {
            if i >= s0.len() {
                let t = i - s0.len();
                assert(s1[s0.len() + t].actions@.len() == 1);
            }
        }
        assert forall|i: int, a: int| 0 <= i < s1.len() && 0 <= a < s1[i].actions@.len() implies configured(
            *config,
            pkg,
            #[trigger] s1[i].actions@[a],
        ) by {
            if i >= s0.len() {
                let t = i - s0.len();
                assert(install_item_ok(s1[s0.len() + t], config.install@[t]@, *db));
            }
        }
    }
    // Step 2: links attach to the tool that owns their target, else to misc.
    let links = link_pending(&config.links);
    let ls = attach_each(&mut items, &mut used, &links);
    let ghost s2 = items@;
    proof {
        assert(stable(s1, s2));
        assert forall|i: int, a: int| 0 <= i < s2.len() && 0 <= a < s2[i].actions@.len() implies configured(
            *config,
            pkg,
            #[trigger] s2[i].actions@[a],
        ) by {
            if i < s1.len() && a < s1[i].actions@.len() {
                assert(s2[i].actions@[a] == s1[i].actions@[a]);
            } else {
                let k = choose|k: int| 0 <= k < links@.len() && links@[k].1 == s2[i].actions@[a];
                assert(links@[k].1 == link_action_of(config.links@[k]));
            }
        }
    }
    // Step 3: directories to create attach the same way.
    let creates = create_pending(&config.create);
    let cs = attach_each(&mut items, &mut used, &creates);
    let ghost s3 = items@;
    proof {
        assert(stable(s2, s3));
        assert forall|i: int, a: int| 0 <= i < s3.len() && 0 <= a < s3[i].actions@.len() implies configured(
            *config,
            pkg,
            #[trigger] s3[i].actions@[a],
        ) by {
            if i < s2.len() && a < s2[i].actions@.len() {
                assert(s3[i].actions@[a] == s2[i].actions@[a]);
            } else {
                let k = choose|k: int| 0 <= k < creates@.len() && creates@[k].1 == s3[i].actions@[a];
                assert(creates@[k].1 == create_action_of(config.create@[k]));
            }
        }
    }
    // Step 4: the default shell joins the item of that name, else misc.
    let ghost mut dx: Action = arbitrary();
    match &config.default_shell {
        Some(sh) => {
            let (name, x) = default_shell_step(sh.as_str());
            let ghost gx = x;
            proof {
                dx = gx;
            }
            attach_by_name(&mut items, &mut used, sh.as_str(), name, x);
            proof {
                lemma_by_name_step(s3, items@, sh@, default_shell_name(sh@), gx);
                let q = items@;
                let (i, a) = choose|i: int, a: int|
                    0 <= i < q.len() && 0 <= a < q[i].actions@.len() && #[trigger] q[i].actions@[a] == gx;
                assert(default_shell_action_ok(q[i].actions@[a], sh@));
                assert(default_shell_held(q, q.len() as int, sh@));
            }
        },
        None => {},
    }
    let ghost s4 = items@;
    proof {
        assert(stable(s3, s4));
        assert(all_nonempty(s4));
        assert forall|i: int, a: int| 0 <= i < s4.len() && 0 <= a < s4[i].actions@.len() implies configured(
            *config,
            pkg,
            #[trigger] s4[i].actions@[a],
        ) by {
            if i < s3.len() && a < s3[i].actions@.len() {
                assert(s4[i].actions@[a] == s3[i].actions@[a]);
            }
        }
    }
    // Step 5: one misc item per shell step.
    let shells = shell_pending(&config.shell);
    push_each(&mut items, &mut used, &shells);
    let ghost s5 = items@;
    // Step 6: one misc item per clean step.
    let cleans = clean_pending(&config.clean);
    push_each(&mut items, &mut used, &cleans);
    let ghost s6 = items@;
    proof {
        lemma_take_stable(s4, s5);
        lemma_take_stable(s5, s6);
        assert forall|i: int, a: int| 0 <= i < s6.len() && 0 <= a < s6[i].actions@.len() implies configured(
            *config,
            pkg,
            #[trigger] s6[i].actions@[a],
        ) by {
            if i < s4.len() {
                assert(s6[i] == s4[i]);
            } else if i < s5.len() {
                let j = i - s4.len();
                assert(s6[i] == s5[s4.len() + j]);
                assert(fresh_item(s5[s4.len() + j], shells@[j].0@, shells@[j].1));
            } else {
                let c = i - s5.len();
                assert(fresh_item(s6[s5.len() + c], cleans@[c].0@, cleans@[c].1));
            }
        }
    }
    // Step 7: first-run selection defaults.
    apply_smart_defaults(&mut items);
    let ghost rest = items@;
    proof {
        lemma_plan_items(*config, *db, pkg, s0, s1, s2, s3, s4, s5, s6, rest, links@, creates@, shells@, cleans@);
        let k: int = if auto_step(*config, pkg) {
            1
        } else {
            0
        };
        assert forall|t: int| 0 <= t < config.install@.len() implies install_item_ok(
            #[trigger] ls@[0][k + t],
            config.install@[t]@,
            *db,
        ) && ls@[0][k + t].actions@.len() == 1 by {
            assert(ls@[0][k + t] == s1[s0.len() + t]);
        }
        if auto_step(*config, pkg) {
            assert(ls@[0][0] == s1[0]);
            assert(s1[0] == s0[0]);
        }
        assert forall|l: int| 0 <= l < config.links@.len() implies attach_step(
            ls@[l],
            ls@[l + 1],
            (#[trigger] config.links@[l]).target@,
            link_action_of(config.links@[l]),
        ) by {
            assert(links@[l].0 == config.links@[l].target);
        }
        assert forall|c: int| 0 <= c < config.create@.len() implies attach_step(
            cs@[c],
            cs@[c + 1],
            (#[trigger] config.create@[c])@,
            create_action_of(config.create@[c]),
        ) by {
            assert(creates@[c].0 == config.create@[c]);
        }
        let ns = config.shell@.len() as int;
        assert forall|i: int| 0 <= i < s4.len() implies same_but_selected(#[trigger] rest[i], s4[i]) by {
            assert(s6[i] == s5[i]);
            assert(s5[i] == s4[i]);
        }
        assert forall|j: int| 0 <= j < ns implies misc_item_of(
            #[trigger] rest[s4.len() + j],
            shell_item_name(config.shell@[j]),
            shell_action_of(config.shell@[j]),
        ) by {
            assert(s6[s4.len() + j] == s5[s4.len() + j]);
            assert(fresh_item(s5[s4.len() + j], shells@[j].0@, shells@[j].1));
        }
        assert forall|c: int| 0 <= c < config.clean@.len() implies misc_item_of(
            #[trigger] rest[s4.len() + ns + c],
            config.clean@[c].target@,
            clean_action_of(config.clean@[c]),
        ) by {
            assert(fresh_item(s6[s5.len() + c], cleans@[c].0@, cleans@[c].1));
        }
        assert(plan_stages_ok(rest, *config, *db, pkg, ls@, cs@, s4, dx));
        assert forall|i: int| 0 <= i < rest.len() implies str_views(used@).contains(#[trigger] rest[i].id@) by {
            assert(rest[i].id == s6[i].id);
        }
    }
    // Step 7a: refresh the apt cache first when apt installs something.
    let is_apt = match pkg_mgr {
        Some(p) => str_eq(p, "apt"),
        None => false,
    };
    if is_apt && any_selected_install(&items) {
        let ghost u = str_views(used@);
        let id = unique_id("auto-apt-update", &mut used);
        let x = Action::Shell {
            command: String::from_str("sudo apt-get update -qq"),
            description: Some(String::from_str("Update apt package cache")),
            optional: false,
            if_condition: None,
        };
        let it = new_item(id, String::from_str("auto apt update"), "misc", x, true);
        items.insert(0, it);
        proof {
            reveal_strlit("misc");
            let k = choose|k: nat|
                k >= 1 && it.id@ == candidate(sanitize_spec("auto-apt-update"@), k) && !u.contains(it.id@)
                    && forall|j: nat| 1 <= j < k ==> u.contains(#[trigger] candidate(sanitize_spec("auto-apt-update"@), j));
            assert(items@.drop_first() =~= rest);
            assert forall|i: int, j: int| 0 <= i < j < items@.len() implies items@[i].id@ != items@[j].id@ by {
                if i == 0 {
                    assert(items@[j] == rest[j - 1]);
                    assert(u.contains(rest[j - 1].id@));
                } else {
                    assert(items@[i] == rest[i - 1]);
                    assert(items@[j] == rest[j - 1]);
                }
            }
            assert(items@[0].actions@[0] == x);
        }
    }
    items
}

/// The name the host record gives an operating system family.
pub open spec fn os_name_spec(os: Os) -> Seq<char> {
    match os {
        Os::Mac => "Mac"@,
        Os::Linux => "Linux"@,
        Os::Unknown => "Unknown"@,
    }
}

/// The record of the machine a plan is built for.
pub fn host_info(hostname: String, os: Os, arch: String, user: String, home: String) -> (r: HostInfo)
    ensures
        r.hostname == hostname,
        r.os@ == os_name_spec(os),
        r.arch == arch,
        r.user == user,
        r.home == home,
{
    let name = match os {
        Os::Mac => String::from_str("Mac"),
        Os::Linux => String::from_str("Linux"),
        Os::Unknown => String::from_str("Unknown"),
    };
    HostInfo { hostname, os: name, arch, user, home }
}

/// Builds a plan from a configuration, on the tool database, the resolved
/// package manager and the configuration file's contents (`None` when it
/// could not be read), for the given host. The plan gets a fresh ULID and
/// the current time.
pub fn build(
    config: &Config,
    mode: Mode,
    db: &ToolDb,
    pkg_mgr: Option<&str>,
    config_contents: Option<&[u8]>,
    host: HostInfo,
) -> (r: Plan)
    requires
        config.install@.len() + config.links@.len() + config.create@.len() + config.shell@.len()
            + config.clean@.len() + 8 < usize::MAX,
    ensures
        r.id@.len() == 26,
        r.mode == mode,
        r.config_path == config.path,
        r.config_hash@ == config_hash_spec(
            match config_contents {
                Some(b) => Some(b@),
                None => None,
            },
        ),
        r.host == host,
        r.auto_install_pkg_manager == config.auto_install_pkg_manager,
        ids_distinct(r.items@),
        exists|rest: Seq<PlanItem>, ls: Seq<Seq<PlanItem>>, cs: Seq<Seq<PlanItem>>, s4: Seq<PlanItem>, dx: Action|
            plan_items_ok(rest, *config, *db, opt_view(pkg_mgr)) && #[trigger] plan_stages_ok(
                rest,
                *config,
                *db,
                opt_view(pkg_mgr),
                ls,
                cs,
                s4,
                dx,
            ) && apt_step_ok(r.items@, rest, opt_view(pkg_mgr)),
{
    let hash = config_hash(config_contents);
    let id = new_run_id();
    let items = build_items(config, db, pkg_mgr);
    Plan {
        id,
        mode,
        created_at: now_iso(),
        config_path: config.path.clone(),
        config_hash: hash,
        host,
        items,
        auto_install_pkg_manager: config.auto_install_pkg_manager,
    }
}

} // verus!
