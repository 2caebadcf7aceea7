//! Link operation: the symlink decision with backup/relink semantics, and the
//! relative link path between a target's directory and its source.

use vstd::prelude::*;
use crate::text::{chars_eq, chars_of, str_views};

verus! {

/// What linking a target does.
#[derive(Debug)]
pub enum LinkAction {
    Skip,
    Link,
    Backup(String),
    Relink,
    Fail(String),
}

/// How a link step may treat an existing target.
#[derive(Clone, Copy, Debug)]
pub struct LinkSettings {
    pub create: bool,
    pub relink: bool,
    pub backup: bool,
    pub relative: bool,
}

/// A planned link: resolved paths, settings and the decided action.
#[derive(Debug)]
pub struct LinkPlan {
    pub target: String,
    pub source: String,
    pub link_source: String,
    pub settings: LinkSettings,
    pub action: LinkAction,
}

/// What the filesystem holds at a link target.
#[derive(Clone, Copy, Debug, PartialEq, Eq, Structural)]
pub enum TargetState {
    /// Nothing is there.
    Missing,
    /// A symlink that already resolves to the source.
    ExpectedSymlink,
    /// A symlink that points elsewhere.
    OtherSymlink,
    /// A file or directory that is not a symlink.
    Occupied,
}

/// The link decision: a missing source fails; a correct symlink is kept; a
/// wrong symlink is replaced when relinking, else backed up when allowed,
/// else a conflict; an occupied target is backed up when allowed, else a
/// conflict; a free target is linked.
pub open spec fn link_decision(
    source_exists: bool,
    state: TargetState,
    settings: LinkSettings,
    backup_path: String,
    conflict: String,
    missing_source: String,
) -> LinkAction {
    if !source_exists {
        LinkAction::Fail(missing_source)
    } else {
        match state {
            TargetState::ExpectedSymlink => LinkAction::Skip,
            TargetState::OtherSymlink => if settings.relink {
                LinkAction::Relink
            } else if settings.backup {
                LinkAction::Backup(backup_path)
            } else {
                LinkAction::Fail(conflict)
            },
            TargetState::Occupied => if settings.backup {
                LinkAction::Backup(backup_path)
            } else {
                LinkAction::Fail(conflict)
            },
            TargetState::Missing => LinkAction::Link,
        }
    }
}

/// What linking decides, as laws over every input:
/// - a missing source always fails, with its own message;
/// - a target is kept as it is only when it already is the expected symlink;
/// - a new link is made only where nothing is in the way;
/// - an existing symlink is replaced only when relinking is on, and anything
///   is backed up only when backups are on, to the backup path given;
/// - a target in the way (a file, a directory, or a foreign symlink that may
///   not be relinked) that may not be backed up is a conflict, reported with
///   the conflict's description.
pub proof fn lemma_link_decision_laws(
    source_exists: bool,
    state: TargetState,
    settings: LinkSettings,
    backup_path: String,
    conflict: String,
    missing_source: String,
)
    ensures
        ({
            let r = link_decision(source_exists, state, settings, backup_path, conflict, missing_source);
            &&& !source_exists ==> r == LinkAction::Fail(missing_source)
            &&& (r is Skip) == (source_exists && state == TargetState::ExpectedSymlink)
            &&& (r is Link) == (source_exists && state == TargetState::Missing)
            &&& (r is Relink) == (source_exists && state == TargetState::OtherSymlink && settings.relink)
            &&& r is Backup ==> settings.backup && r->Backup_0 == backup_path && (state == TargetState::Occupied
                || state == TargetState::OtherSymlink)
            &&& source_exists && state == TargetState::Occupied ==> r == (if settings.backup {
                LinkAction::Backup(backup_path)
            } else {
                LinkAction::Fail(conflict)
            })
            &&& source_exists && state == TargetState::OtherSymlink && !settings.relink && !settings.backup ==> r
                == LinkAction::Fail(conflict)
        }),
{
}

/// The link action for a target, given whether the source exists and what
/// is at the target. `backup_path` is where a backup would go and `conflict`
/// the description of a conflicting target.
pub fn decide_link_action(
    source_exists: bool,
    state: TargetState,
    settings: LinkSettings,
    backup_path: String,
    conflict: String,
) -> (r: LinkAction)
    ensures
        r == link_decision(
            source_exists,
            state,
            settings,
            backup_path,
            conflict,
            r->Fail_0,
        ),
        !source_exists ==> r->Fail_0@ == "source does not exist"@,
{
    if !source_exists {
        return LinkAction::Fail(String::from_str("source does not exist"));
    }
    match state {
        TargetState::ExpectedSymlink => LinkAction::Skip,
        TargetState::OtherSymlink => {
            if settings.relink {
                LinkAction::Relink
            } else if settings.backup {
                LinkAction::Backup(backup_path)
            } else {
                LinkAction::Fail(conflict)
            }
        },
        TargetState::Occupied => {
            if settings.backup {
                LinkAction::Backup(backup_path)
            } else {
                LinkAction::Fail(conflict)
            }
        },
        TargetState::Missing => LinkAction::Link,
    }
}

/// A component of a path, as `std::path::Component` reports it.
#[derive(Debug)]
pub enum PathComponent {
    Prefix,
    RootDir,
    CurDir,
    ParentDir,
    Normal(String),
}

/// The normal form of a component list: the root as an empty name, `.`
/// dropped, `..` removing the previous name; `None` for a Windows prefix or
/// a `..` with nothing to remove.
pub open spec fn normalize_components(c: Seq<PathComponent>) -> Option<Seq<Seq<char>>>
    decreases c.len(),
{
    if c.len() == 0 {
        Some(seq![])
    } else {
        match normalize_components(c.drop_last()) {
            None => None,
            Some(p) => match c.last() {
                PathComponent::RootDir => Some(p.push(seq![])),
                PathComponent::Normal(v) => Some(p.push(v@)),
                PathComponent::CurDir => Some(p),
                PathComponent::ParentDir => if p.len() == 0 {
                    None
                } else {
                    Some(p.drop_last())
                },
                PathComponent::Prefix => None,
            },
        }
    }
}

/// The normal component names of a path (`None` when it cannot be normalised).
pub fn normal_components(c: &Vec<PathComponent>) -> (r: Option<Vec<String>>)
    ensures
        match r {
            Some(v) => normalize_components(c@) == Some(str_views(v@)),
            None => normalize_components(c@) is None,
        },
{
    let mut parts: Vec<String> = Vec::new();
    let mut i: usize = 0;
    while i < c.len()
        invariant
            i <= c.len(),
            normalize_components(c@.take(i as int)) == Some(str_views(parts@)),
        decreases c.len() - i,
    {
        proof {
            assert(c@.take(i + 1).drop_last() =~= c@.take(i as int));
        }
        match &c[i] {
            PathComponent::RootDir => {
                parts.push(String::new());
                assert(str_views(parts@) =~= str_views(parts@.drop_last()).push(seq![]));
            },
            PathComponent::Normal(v) => {
                parts.push(v.clone());
                assert(str_views(parts@) =~= str_views(parts@.drop_last()).push(v@));
            },
            PathComponent::CurDir => {},
            PathComponent::ParentDir => {
                if parts.len() == 0 {
                    proof {
                        lemma_normalize_none_extends(c@, i as int + 1);
                    }
                    return None;
                }
                let ghost before = parts@;
                parts.pop();
                assert(str_views(parts@) =~= str_views(before).drop_last());
            },
            PathComponent::Prefix => {
                proof {
                    lemma_normalize_none_extends(c@, i as int + 1);
                }
                return None;
            },
        }
        i += 1;
    }
    assert(c@.take(c.len() as int) =~= c@);
    Some(parts)
}

proof fn lemma_normalize_none_extends(c: Seq<PathComponent>, k: int)
    requires
        0 <= k <= c.len(),
        normalize_components(c.take(k)) is None,
    ensures
        normalize_components(c) is None,
    decreases c.len() - k,
{
    if k < c.len() {
        assert(c.take(k + 1).drop_last() =~= c.take(k));
        lemma_normalize_none_extends(c, k + 1);
    } else {
        assert(c.take(k) =~= c);
    }
}

/// The length of the longest common prefix of `a` and `b`.
pub open spec fn common_len(a: Seq<Seq<char>>, b: Seq<Seq<char>>, n: int) -> bool {
    &&& 0 <= n <= a.len()
    &&& n <= b.len()
    &&& forall|i: int| 0 <= i < n ==> a[i] == b[i]
    &&& (n == a.len() || n == b.len() || a[n] != b[n])
}

/// The relative component list leading from `base` to `path`: one `..` per
/// component of `base` past the common prefix, then the rest of `path`; a
/// single `.` when that is empty.
pub open spec fn relative_components(path: Seq<Seq<char>>, base: Seq<Seq<char>>, n: int) -> Seq<
    Seq<char>,
> {
    let r = Seq::new((base.len() - n) as nat, |i: int| ".."@) + path.skip(n);
    if r.len() == 0 {
        seq!["."@]
    } else {
        r
    }
}

/// The components of the relative path from `base` to `path` (both already
/// normalised), the common prefix being `n` long.
pub fn diff_components(path: &Vec<String>, base: &Vec<String>) -> (r: Vec<String>)
    ensures
        exists|n: int|
            common_len(str_views(path@), str_views(base@), n) && str_views(r@)
                == relative_components(str_views(path@), str_views(base@), n),
{
    let mut common: usize = 0;
    while common < path.len() && common < base.len() && chars_eq(
        chars_of(path[common].as_str()).as_slice(),
        chars_of(base[common].as_str()).as_slice(),
    )
        invariant
            common <= path.len(),
            common <= base.len(),
            forall|i: int| 0 <= i < common ==> path@[i]@ == base@[i]@,
        decreases path.len() - common,
    {
        common += 1;
    }
    let ghost n = common as int;
    let mut result: Vec<String> = Vec::new();
    let mut k = common;
    while k < base.len()
        invariant
            common <= k <= base.len(),
            str_views(result@) =~= Seq::new((k - common) as nat, |i: int| ".."@),
        decreases base.len() - k,
    {
        let ghost prev = result@;
        result.push(String::from_str(".."));
        assert(str_views(result@) =~= str_views(prev).push(".."@));
        k += 1;
    }
    let mut j = common;
    while j < path.len()
        invariant
            common <= j <= path.len(),
            common <= base.len(),
            str_views(result@) =~= Seq::new((base.len() - common) as nat, |i: int| ".."@)
                + str_views(path@).subrange(common as int, j as int),
        decreases path.len() - j,
    {
        let ghost prev = result@;
        result.push(path[j].clone());
        assert(str_views(result@) =~= str_views(prev).push(path@[j as int]@));
        assert(str_views(path@).subrange(common as int, j + 1) =~= str_views(path@).subrange(
            common as int,
            j as int,
        ).push(path@[j as int]@));
        j += 1;
    }
    assert(str_views(path@).subrange(common as int, path.len() as int) =~= str_views(path@).skip(
        common as int,
    ));
    if result.len() == 0 {
        result.push(String::from_str("."));
        assert(str_views(result@) =~= seq!["."@]);
    }
    assert(common_len(str_views(path@), str_views(base@), n));
    result
}

/// Applies a relative component list to a directory: `..` goes up, `.`
/// stays, any other name goes down.
pub open spec fn apply_relative(dir: Seq<Seq<char>>, rel: Seq<Seq<char>>) -> Seq<Seq<char>>
    decreases rel.len(),
{
    if rel.len() == 0 {
        dir
    } else {
        let next = if rel[0] == ".."@ {
            dir.drop_last()
        } else if rel[0] == "."@ {
            dir
        } else {
            dir.push(rel[0])
        };
        apply_relative(next, rel.drop_first())
    }
}

proof fn lemma_apply_names(dir: Seq<Seq<char>>, names: Seq<Seq<char>>)
    requires
        forall|i: int| 0 <= i < names.len() ==> names[i] != ".."@ && names[i] != "."@,
    ensures
        apply_relative(dir, names) == dir + names,
    decreases names.len(),
{
    if names.len() > 0 {
        lemma_apply_names(dir.push(names[0]), names.drop_first());
        assert(dir.push(names[0]) + names.drop_first() =~= dir + names);
    } else {
        assert(dir + names =~= dir);
    }
}

proof fn lemma_apply_ups(dir: Seq<Seq<char>>, k: int, rest: Seq<Seq<char>>)
    requires
        0 <= k <= dir.len(),
    ensures
        apply_relative(dir, Seq::new(k as nat, |i: int| ".."@) + rest) == apply_relative(
            dir.take(dir.len() - k),
            rest,
        ),
    decreases k,
{
    if k == 0 {
        assert(Seq::new(0, |i: int| ".."@) + rest =~= rest);
        assert(dir.take(dir.len() as int) =~= dir);
    } else {
        let s = Seq::new(k as nat, |i: int| ".."@) + rest;
        assert(s[0] == ".."@);
        assert(s.drop_first() =~= Seq::new((k - 1) as nat, |i: int| ".."@) + rest);
        lemma_apply_ups(dir.drop_last(), k - 1, rest);
        assert(dir.drop_last().take(dir.drop_last().len() - (k - 1)) =~= dir.take(dir.len() - k));
    }
}

/// The relative path from a directory to a target leads back to the target:
/// starting at `base` and following `relative_components(path, base, n)`
/// reaches `path`, when `path` names no `.` or `..` component.
pub proof fn lemma_relative_path_reaches_target(
    path: Seq<Seq<char>>,
    base: Seq<Seq<char>>,
    n: int,
)
    requires
        common_len(path, base, n),
        forall|i: int| 0 <= i < path.len() ==> path[i] != ".."@ && path[i] != "."@,
    ensures
        apply_relative(base, relative_components(path, base, n)) == path,
{
    let ups = Seq::new((base.len() - n) as nat, |i: int| ".."@);
    let rest = path.skip(n);
    lemma_apply_ups(base, base.len() - n, rest);
    assert(base.take(n) =~= path.take(n));
    lemma_apply_names(path.take(n), rest);
    assert(path.take(n) + rest =~= path);
    if (ups + rest).len() == 0 {
        reveal_strlit(".");
        reveal_strlit("..");
        assert("."@.len() == 1 && ".."@.len() == 2);
        assert("."@ != ".."@);
        let one: Seq<Seq<char>> = seq!["."@];
        assert(one[0] == "."@);
        assert(path.len() == n);
        assert(base.len() == n);
        assert(apply_relative(base, seq!["."@]) == apply_relative(base, seq!["."@].drop_first()));
        assert(seq!["."@].drop_first() =~= Seq::<Seq<char>>::empty());
        assert(base =~= path);
    }
}

/// What the filesystem shows about a link step, gathered at the resolved
/// paths (`link_target`, `link_source`).
#[derive(Debug)]
pub struct LinkProbe {
    pub source_exists: bool,
    pub state: TargetState,
    /// The relative path from the target's directory to the source, when
    /// `relative` is set; `None` when it could not be computed.
    pub relative_source: Option<String>,
    /// Where a backup of the target would go.
    pub backup_path: String,
    /// The description of a conflicting target.
    pub conflict: String,
}

/// The source of a link step: a relative source lies in the config directory.
pub fn link_source(config_dir: &str, source: &str) -> (r: String)
    ensures
        r@ == crate::path::join_path(config_dir@, source@),
{
    crate::path::join(config_dir, source)
}

/// The target of a link step, `~/` expanded under `home`.
pub fn link_target(target: &str, home: Option<&str>) -> (r: String)
    ensures
        r@ == crate::profile::expand_tilde_spec(target@, crate::text::opt_view(home)),
{
    crate::profile::expand_tilde(target, home)
}

/// Plans a link step. The source and target are resolved; a missing source
/// gives a failing plan; else the link points at the relative path when
/// `relative` is set (an error when it could not be computed) and at the
/// source otherwise, and the action follows `link_decision`.
pub fn plan_link(
    config_dir: &str,
    target: &str,
    source: &str,
    settings: LinkSettings,
    home: Option<&str>,
    probe: LinkProbe,
) -> (r: Result<LinkPlan, String>)
    ensures
        match r {
            Ok(plan) => {
                &&& plan.target@ == crate::profile::expand_tilde_spec(
                    target@,
                    crate::text::opt_view(home),
                )
                &&& plan.source@ == crate::path::join_path(config_dir@, source@)
                &&& plan.settings == settings
                &&& plan.action == link_decision(
                    probe.source_exists,
                    probe.state,
                    settings,
                    probe.backup_path,
                    probe.conflict,
                    plan.action->Fail_0,
                )
                &&& !probe.source_exists ==> plan.action->Fail_0@ == "source does not exist"@
                &&& plan.link_source@ == if probe.source_exists && settings.relative {
                    probe.relative_source->0@
                } else {
                    plan.source@
                }
            },
            Err(e) => {
                &&& probe.source_exists
                &&& settings.relative
                &&& probe.relative_source is None
                &&& e@ == "failed to compute relative link for "@ + crate::profile::expand_tilde_spec(
                    target@,
                    crate::text::opt_view(home),
                )
            },
        },
{
    let source = link_source(config_dir, source);
    let target = link_target(target, home);
    if !probe.source_exists {
        let action = decide_link_action(false, probe.state, settings, probe.backup_path, probe.conflict);
        return Ok(LinkPlan { target, link_source: source.clone(), source, settings, action });
    }
    let link_source = if settings.relative {
        match probe.relative_source {
            Some(rel) => rel,
            None => {
                let mut e = String::from_str("failed to compute relative link for ");
                e.append(target.as_str());
                return Err(e);
            },
        }
    } else {
        source.clone()
    };
    let action = decide_link_action(true, probe.state, settings, probe.backup_path, probe.conflict);
    Ok(LinkPlan { target, source, link_source, settings, action })
}

/// The index of the last `c` in `t`, or -1.
pub open spec fn last_index_of(t: Seq<char>, c: char) -> int
    decreases t.len(),
{
    if t.len() == 0 {
        -1
    } else if t.last() == c {
        t.len() - 1
    } else {
        last_index_of(t.drop_last(), c)
    }
}

proof fn lemma_last_index_of(t: Seq<char>, c: char)
    ensures
        -1 <= last_index_of(t, c) < t.len(),
        last_index_of(t, c) >= 0 ==> t[last_index_of(t, c)] == c,
        forall|j: int| last_index_of(t, c) < j < t.len() ==> t[j] != c,
    decreases t.len(),
{
    if t.len() > 0 && t.last() != c {
        lemma_last_index_of(t.drop_last(), c);
        assert forall|j: int| last_index_of(t, c) < j < t.len() implies t[j] != c by {
            if j < t.len() - 1 {
                assert(t[j] == t.drop_last()[j]);
            }
        }
    }
}

/// `Path::file_stem` of a file name: up to its last `.`, unless that dot
/// starts the name or there is none.
pub open spec fn file_stem_spec(name: Seq<char>) -> Seq<char> {
    let i = last_index_of(name, '.');
    if i <= 0 {
        name
    } else {
        name.take(i)
    }
}

/// `Path::with_extension` on a path string: the last `/`-separated name gets
/// its stem followed by `.` and `ext`; a path whose last name is empty, `.`
/// or `..` is kept.
pub open spec fn with_extension_spec(t: Seq<char>, ext: Seq<char>) -> Seq<char> {
    let k = last_index_of(t, '/');
    let name = t.skip(k + 1);
    if name.len() == 0 || name == seq!['.'] || name == seq!['.', '.'] {
        t
    } else {
        t.take(k + 1) + file_stem_spec(name) + seq!['.'] + ext
    }
}

/// The extension of backup number `counter` taken at `stamp`:
/// `backup.<stamp>`, then `.<counter>` from the second one on.
pub open spec fn backup_ext(stamp: Seq<char>, counter: nat) -> Seq<char> {
    if counter == 0 {
        "backup."@ + stamp
    } else {
        "backup."@ + stamp + "."@ + crate::text::decimal(counter)
    }
}

fn last_index(v: &Vec<char>, c: char) -> (r: Option<usize>)
    ensures
        match r {
            Some(i) => i < v@.len() && i as int == last_index_of(v@, c),
            None => last_index_of(v@, c) == -1,
        },
{
    proof {
        lemma_last_index_of(v@, c);
    }
    let mut i: usize = v.len();
    assert(v@.take(v@.len() as int) =~= v@);
    while i > 0
        invariant
            i <= v@.len(),
            last_index_of(v@, c) == last_index_of(v@.take(i as int), c),
        decreases i,
    {
        proof {
            assert(v@.take(i as int).drop_last() =~= v@.take(i - 1));
        }
        if v[i - 1] == c {
            return Some(i - 1);
        }
        i = i - 1;
    }
    None
}

/// Candidate number `counter` (counting from 0) for the backup of `target`
/// taken at `stamp`: the target with the extension `backup.<stamp>`, then
/// `backup.<stamp>.<counter>`; the caller takes the first that is free. It
/// differs from the target unless the target already ends with that
/// extension (or has no file name).
#[verifier::rlimit(60)]
#[verifier::spinoff_prover]
pub fn backup_candidate(target: &str, stamp: &str, counter: u64) -> (r: String)
    ensures
        r@ == with_extension_spec(target@, backup_ext(stamp@, counter as nat)),
{
    let mut ext = String::from_str("backup.");
    ext.append(stamp);
    if counter > 0 {
        ext.append(".");
        ext.append(crate::text::string_of(crate::text::decimal_chars(counter).as_slice()).as_str());
    }
    proof {
        reveal_strlit("backup.");
        reveal_strlit(".");
    }
    let t = chars_of(target);
    let k = last_index(&t, '/');
    proof {
        lemma_last_index_of(t@, '/');
    }
    let n = t.len();
    let start: usize = match k {
        Some(i) => if i < n {
            i + 1
        } else {
            n
        },
        None => 0,
    };
    let name = crate::text::slice_chars(t.as_slice(), start, t.len());
    assert(name@ == target@.skip(last_index_of(target@, '/') + 1));
    if name.len() == 0 || (name.len() == 1 && name[0] == '.') || (name.len() == 2 && name[0] == '.' && name[1] == '.') {
        proof {
            if name.len() == 1 {
                assert(name@ =~= seq!['.']);
            }
            if name.len() == 2 {
                assert(name@ =~= seq!['.', '.']);
            }
        }
        return String::from_str(target);
    }
    proof {
        assert(!(name@ == seq!['.']) || name@.len() == 1);
        if name@ == seq!['.'] {
            assert(name@[0] == '.');
        }
        if name@ == seq!['.', '.'] {
            assert(name@[0] == '.' && name@[1] == '.');
        }
    }
    let d = last_index(&name, '.');
    let stem_len: usize = match d {
        Some(i) => if i == 0 { name.len() } else { i },
        None => name.len(),
    };
    proof {
        lemma_last_index_of(name@, '.');
    }
    let mut out = crate::text::slice_chars(t.as_slice(), 0, start);
    let mut stem = crate::text::slice_chars(name.as_slice(), 0, stem_len);
    assert(stem@ == file_stem_spec(name@));
    let ghost prefix = out@;
    out.append(&mut stem);
    out.push('.');
    let mut e = chars_of(ext.as_str());
    let ghost ev = e@;
    out.append(&mut e);
    let ghost b = backup_ext(stamp@, counter as nat);
    assert(ev == b);
    assert(out@ =~= target@.take(last_index_of(target@, '/') + 1) + file_stem_spec(name@) + seq!['.'] + b);
    crate::text::string_of(out.as_slice())
}

/// A backup path differs from its target, unless the target has no file
/// name or already ends with the backup's extension.
#[verifier::rlimit(40)]
#[verifier::spinoff_prover]
pub proof fn lemma_backup_differs(t: Seq<char>, ext: Seq<char>)
    requires
        ({
            let name = t.skip(last_index_of(t, '/') + 1);
            !(name.len() == 0 || name == seq!['.'] || name == seq!['.', '.'])
        }),
        !crate::text::has_suffix(t, seq!['.'] + ext),
    ensures
        with_extension_spec(t, ext) != t,
{
    lemma_last_index_of(t, '/');
    let k = last_index_of(t, '/');
    let name = t.skip(k + 1);
    lemma_last_index_of(name, '.');
    let r = with_extension_spec(t, ext);
    let sfx = seq!['.'] + ext;
    assert(r =~= t.take(k + 1) + file_stem_spec(name) + sfx);
    assert(r.skip(r.len() - sfx.len()) =~= sfx);
}

} // verus!
