//! Drift between the configuration and the machine: per-tool and
//! per-dotfile findings, and the commands that reconcile them.

use vstd::prelude::*;
use crate::text::{chars_of, has_prefix, join, join_with, slice_chars, starts_with, str_eq, string_of, views};

verus! {

/// A managed tool's state.
#[derive(Debug)]
pub struct ToolDiffEntry {
    pub name: String,
    pub path: String,
    /// "ok", "missing", "drifted" or "version_unknown".
    pub status: String,
    pub installed_version: Option<String>,
    pub expected_version: Option<String>,
}

/// A linked dotfile's state.
#[derive(Debug)]
pub struct DotfileDiffEntry {
    pub name: String,
    pub path: String,
    /// "ok", "missing" or "wrong_target".
    pub status: String,
    pub actual_target: Option<String>,
}

/// A leftover backup or staging directory.
#[derive(Debug)]
pub struct StaleEntry {
    pub path: String,
    pub status: String,
}

/// The state of the source checkout.
#[derive(Debug)]
pub struct SourceCheckoutDiffEntry {
    pub path: String,
    pub status: String,
}

/// The counts of a diff.
#[derive(Debug)]
pub struct DiffSummary {
    pub ok: usize,
    pub missing: usize,
    pub drifted: usize,
    pub stale: usize,
    pub wrong_target: usize,
    pub version_unknown: usize,
    pub narrow: bool,
    pub reconcile_commands: Vec<String>,
}

impl Default for DiffSummary {
    fn default() -> (r: DiffSummary)
        ensures
            r.ok == 0 && r.missing == 0 && r.drifted == 0 && r.stale == 0,
            r.wrong_target == 0 && r.version_unknown == 0 && !r.narrow,
            r.reconcile_commands@.len() == 0,
    {
        DiffSummary {
            ok: 0,
            missing: 0,
            drifted: 0,
            stale: 0,
            wrong_target: 0,
            version_unknown: 0,
            narrow: false,
            reconcile_commands: Vec::new(),
        }
    }
}

/// The findings of a diff.
#[derive(Debug)]
pub struct DiffOutput {
    pub installed_tools: Vec<ToolDiffEntry>,
    pub linked_dotfiles: Vec<DotfileDiffEntry>,
    pub backups: Vec<StaleEntry>,
    pub staging_leftovers: Vec<StaleEntry>,
    pub source_checkout: Option<SourceCheckoutDiffEntry>,
    pub summary: DiffSummary,
}

/// A tool that needs installing again: missing or at another version.
pub open spec fn tool_actionable(t: ToolDiffEntry) -> bool {
    t.status@ == "missing"@ || t.status@ == "drifted"@
}

/// A dotfile that needs linking again: missing or pointing elsewhere.
pub open spec fn dotfile_actionable(d: DotfileDiffEntry) -> bool {
    d.status@ == "missing"@ || d.status@ == "wrong_target"@
}

/// The names of the dotfiles that need linking again, in order.
pub open spec fn relink_names(ds: Seq<DotfileDiffEntry>) -> Seq<Seq<char>>
    decreases ds.len(),
{
    if ds.len() == 0 {
        Seq::empty()
    } else {
        relink_names(ds.drop_last()) + (if dotfile_actionable(ds.last()) {
            seq![ds.last().name@]
        } else {
            Seq::empty()
        })
    }
}

/// The commands that reconcile a diff: a bootstrap when a tool is missing
/// or drifted, one forced link of every dotfile that is missing or points
/// elsewhere, and a cleanup when backups or staging leftovers remain.
pub open spec fn reconcile_spec(o: DiffOutput) -> Seq<Seq<char>> {
    let names = relink_names(o.linked_dotfiles@);
    (if exists|i: int| 0 <= i < o.installed_tools@.len() && tool_actionable(#[trigger] o.installed_tools@[i]) {
        seq!["dotman bootstrap"@]
    } else {
        Seq::empty()
    }) + (if names.len() > 0 {
        seq!["dotman link --force "@ + join_with(names, " "@)]
    } else {
        Seq::empty()
    }) + (if o.backups@.len() > 0 || o.staging_leftovers@.len() > 0 {
        seq!["dotman cleanup"@]
    } else {
        Seq::empty()
    })
}

/// The commands that reconcile a diff.
pub fn generate_reconcile_commands(output: &DiffOutput) -> (r: Vec<String>)
    ensures
        crate::text::str_views(r@) == reconcile_spec(*output),
{
    let mut cmds: Vec<String> = Vec::new();
    let mut actionable = false;
    let mut i: usize = 0;
    while i < output.installed_tools.len()
        invariant
            i <= output.installed_tools@.len(),
            actionable == exists|j: int| 0 <= j < i && tool_actionable(#[trigger] output.installed_tools@[j]),
        decreases output.installed_tools@.len() - i,
    {
        let s = output.installed_tools[i].status.as_str();
        if str_eq(s, "missing") || str_eq(s, "drifted") {
            actionable = true;
        }
        i += 1;
    }
    let ghost c0 = crate::text::str_views(cmds@);
    if actionable {
        cmds.push(String::from_str("dotman bootstrap"));
    }
    let ghost c1 = crate::text::str_views(cmds@);
    let mut names: Vec<Vec<char>> = Vec::new();
    let mut k: usize = 0;
    while k < output.linked_dotfiles.len()
        invariant
            k <= output.linked_dotfiles@.len(),
            views(names@) == relink_names(output.linked_dotfiles@.take(k as int)),
        decreases output.linked_dotfiles@.len() - k,
    {
        proof {
            assert(output.linked_dotfiles@.take(k + 1).drop_last() =~= output.linked_dotfiles@.take(k as int));
        }
        let d = &output.linked_dotfiles[k];
        let ghost before = views(names@);
        if str_eq(d.status.as_str(), "missing") || str_eq(d.status.as_str(), "wrong_target") {
            names.push(chars_of(d.name.as_str()));
            proof {
                assert(views(names@) =~= before + seq![d.name@]);
            }
        } else {
            proof {
                assert(views(names@) =~= before + Seq::<Seq<char>>::empty());
            }
        }
        k += 1;
    }
    proof {
        assert(output.linked_dotfiles@.take(output.linked_dotfiles@.len() as int) =~= output.linked_dotfiles@);
    }
    if names.len() > 0 {
        let mut line = chars_of("dotman link --force ");
        let mut joined = join(&names, chars_of(" ").as_slice());
        line.append(&mut joined);
        cmds.push(string_of(line.as_slice()));
    }
    let ghost c2 = crate::text::str_views(cmds@);
    if output.backups.len() > 0 || output.staging_leftovers.len() > 0 {
        cmds.push(String::from_str("dotman cleanup"));
    }
    proof {
        let o = *output;
        let names_s = relink_names(o.linked_dotfiles@);
        let a = if exists|i: int| 0 <= i < o.installed_tools@.len() && tool_actionable(#[trigger] o.installed_tools@[i]) {
            seq!["dotman bootstrap"@]
        } else {
            Seq::empty()
        };
        assert(c1 =~= a);
        let b = if names_s.len() > 0 {
            seq!["dotman link --force "@ + join_with(names_s, " "@)]
        } else {
            Seq::empty()
        };
        assert(c2 =~= a + b);
        assert(crate::text::str_views(cmds@) =~= reconcile_spec(o));
    }
    cmds
}

/// The finding for a tool from what is on disk: missing when its install
/// location does not exist; else, when its version is checked, drifted when
/// the installed version differs from a pinned one and unknown when it
/// cannot be read; else ok.
pub open spec fn tool_status(
    exists: bool,
    pinned: Option<Seq<char>>,
    checked: Option<Option<Seq<char>>>,
) -> Seq<char> {
    if !exists {
        "missing"@
    } else {
        match checked {
            Some(Some(v)) => match pinned {
                Some(p) => if v != p {
                    "drifted"@
                } else {
                    "ok"@
                },
                None => "ok"@,
            },
            Some(None) => "version_unknown"@,
            None => "ok"@,
        }
    }
}

/// What a tool's finding means, as laws over every input: it is missing
/// exactly when its install location does not exist; drifted exactly when
/// the version read differs from the pinned one; unknown exactly when its
/// version was checked and could not be read; and ok otherwise, so a tool
/// whose version reads as the pinned one is ok.
pub proof fn lemma_tool_status_laws(exists: bool, pinned: Option<Seq<char>>, checked: Option<Option<Seq<char>>>)
    ensures
        ({
            let st = tool_status(exists, pinned, checked);
            let drift = exists && (match (checked, pinned) {
                (Some(Some(v)), Some(p)) => v != p,
                _ => false,
            });
            let unknown = exists && checked == Some(None::<Seq<char>>);
            &&& (st == "missing"@) == !exists
            &&& (st == "drifted"@) == drift
            &&& (st == "version_unknown"@) == unknown
            &&& (st == "ok"@) == (exists && !drift && !unknown)
            &&& exists ==> (checked matches Some(Some(v)) && pinned == Some(v) ==> st == "ok"@)
        }),
{
    reveal_strlit("missing");
    reveal_strlit("drifted");
    reveal_strlit("ok");
    reveal_strlit("version_unknown");
    assert("version_unknown"@.len() != "ok"@.len());
    assert("version_unknown"@.len() != "drifted"@.len());
    assert("version_unknown"@.len() != "missing"@.len());
    assert("drifted"@.len() != "ok"@.len());
    assert("missing"@.len() != "ok"@.len());
    assert("missing"@[0] != "drifted"@[0]);
}

/// The version a tool is pinned to: its configured version unless that is
/// empty or `latest`.
pub open spec fn pinned_version(version: Seq<char>) -> Option<Seq<char>> {
    if version != "latest"@ && version.len() > 0 {
        Some(version)
    } else {
        None
    }
}

/// The diff entry of a tool installed at `path`: whether it exists, its
/// configured version, and, when its version is checked, what the check
/// read (`Some(None)` when it could not).
pub fn tool_diff_entry(
    name: &str,
    path: &str,
    exists: bool,
    version: &str,
    checked: Option<Option<String>>,
) -> (r: ToolDiffEntry)
    ensures
        r.name@ == name@,
        r.path@ == path@,
        r.status@ == tool_status(
            exists,
            pinned_version(version@),
            match checked {
                Some(Some(v)) => Some(Some(v@)),
                Some(None) => Some(None),
                None => None,
            },
        ),
        !exists ==> r.installed_version is None && r.expected_version is None,
        exists && r.status@ == "drifted"@ ==> crate::text::opt_string_view(r.installed_version) == (match checked {
            Some(Some(v)) => Some(v@),
            _ => None,
        }) && crate::text::opt_string_view(r.expected_version) == pinned_version(version@),
        exists && r.status@ == "version_unknown"@ ==> r.installed_version is None
            && crate::text::opt_string_view(r.expected_version) == pinned_version(version@),
        exists && r.status@ == "ok"@ ==> crate::text::opt_string_view(r.installed_version) == pinned_version(version@)
            && crate::text::opt_string_view(r.expected_version) == pinned_version(version@),
{
    proof {
        reveal_strlit("missing");
        reveal_strlit("drifted");
        reveal_strlit("ok");
        reveal_strlit("version_unknown");
        assert("version_unknown"@.len() != "ok"@.len());
        assert("version_unknown"@.len() != "drifted"@.len());
        assert("drifted"@.len() != "ok"@.len());
        assert("missing"@.len() != "ok"@.len());
        assert("missing"@[0] != "drifted"@[0]);
    }
    if !exists {
        return ToolDiffEntry {
            name: String::from_str(name),
            path: String::from_str(path),
            status: String::from_str("missing"),
            installed_version: None,
            expected_version: None,
        };
    }
    let expected: Option<String> = if !str_eq(version, "latest") && !version.is_empty() {
        Some(String::from_str(version))
    } else {
        None
    };
    match checked {
        Some(Some(installed)) => {
            match &expected {
                Some(e) => {
                    if !str_eq(installed.as_str(), e.as_str()) {
                        return ToolDiffEntry {
                            name: String::from_str(name),
                            path: String::from_str(path),
                            status: String::from_str("drifted"),
                            installed_version: Some(installed),
                            expected_version: Some(e.clone()),
                        };
                    }
                },
                None => {},
            }
        },
        Some(None) => {
            return ToolDiffEntry {
                name: String::from_str(name),
                path: String::from_str(path),
                status: String::from_str("version_unknown"),
                installed_version: None,
                expected_version: expected,
            };
        },
        None => {},
    }
    ToolDiffEntry {
        name: String::from_str(name),
        path: String::from_str(path),
        status: String::from_str("ok"),
        installed_version: crate::model::clone_opt(&expected),
        expected_version: expected,
    }
}

/// The name a dotfile is shown under: its source without a leading `config/`.
pub open spec fn dotfile_name(source: Seq<char>) -> Seq<char> {
    if has_prefix(source, "config/"@) {
        source.skip(7)
    } else {
        source
    }
}

/// The diff entry of a dotfile from where its link points (`None` when it
/// is not a link) and whether that is the expected source.
pub fn dotfile_diff_entry(source: &str, path: &str, link: Option<String>, matches_expected: bool) -> (r: DotfileDiffEntry)
    ensures
        r.name@ == dotfile_name(source@),
        r.path@ == path@,
        match link {
            None => r.status@ == "missing"@ && r.actual_target is None,
            Some(t) => if matches_expected {
                r.status@ == "ok"@ && r.actual_target is None
            } else {
                r.status@ == "wrong_target"@ && crate::text::opt_string_view(r.actual_target) == Some(t@)
            },
        },
{
    let v = chars_of(source);
    let p = chars_of("config/");
    proof {
        reveal_strlit("config/");
    }
    let name = if starts_with(v.as_slice(), p.as_slice()) {
        let s = slice_chars(v.as_slice(), 7, v.len());
        proof {
            assert(s@ =~= v@.skip(7));
        }
        string_of(s.as_slice())
    } else {
        String::from_str(source)
    };
    match link {
        None => DotfileDiffEntry {
            name,
            path: String::from_str(path),
            status: String::from_str("missing"),
            actual_target: None,
        },
        Some(t) => if matches_expected {
            DotfileDiffEntry { name, path: String::from_str(path), status: String::from_str("ok"), actual_target: None }
        } else {
            DotfileDiffEntry {
                name,
                path: String::from_str(path),
                status: String::from_str("wrong_target"),
                actual_target: Some(t),
            }
        },
    }
}

/// How many of the tools have the status `status`.
pub open spec fn tool_count(ts: Seq<ToolDiffEntry>, status: Seq<char>) -> nat
    decreases ts.len(),
{
    if ts.len() == 0 {
        0
    } else {
        tool_count(ts.drop_last(), status) + if ts.last().status@ == status { 1nat } else { 0nat }
    }
}

/// How many of the dotfiles have the status `status`.
pub open spec fn dotfile_count(ds: Seq<DotfileDiffEntry>, status: Seq<char>) -> nat
    decreases ds.len(),
{
    if ds.len() == 0 {
        0
    } else {
        dotfile_count(ds.drop_last(), status) + if ds.last().status@ == status { 1nat } else { 0nat }
    }
}

proof fn lemma_tool_count_le(ts: Seq<ToolDiffEntry>, status: Seq<char>)
    ensures
        tool_count(ts, status) <= ts.len(),
    decreases ts.len(),
{
    if ts.len() > 0 {
        lemma_tool_count_le(ts.drop_last(), status);
    }
}

proof fn lemma_dotfile_count_le(ds: Seq<DotfileDiffEntry>, status: Seq<char>)
    ensures
        dotfile_count(ds, status) <= ds.len(),
    decreases ds.len(),
{
    if ds.len() > 0 {
        lemma_dotfile_count_le(ds.drop_last(), status);
    }
}

/// `s` counts the findings: tools and dotfiles that are fine or missing,
/// tools at another or an unknown version, dotfiles pointing elsewhere, and
/// `stale` leftovers; no reconcile commands yet.
pub open spec fn summary_of(s: DiffSummary, tools: Seq<ToolDiffEntry>, dotfiles: Seq<DotfileDiffEntry>, stale: usize, narrow: bool) -> bool {
    &&& s.ok == tool_count(tools, "ok"@) + dotfile_count(dotfiles, "ok"@)
    &&& s.missing == tool_count(tools, "missing"@) + dotfile_count(dotfiles, "missing"@)
    &&& s.drifted == tool_count(tools, "drifted"@)
    &&& s.version_unknown == tool_count(tools, "version_unknown"@)
    &&& s.wrong_target == dotfile_count(dotfiles, "wrong_target"@)
    &&& s.stale == stale
    &&& s.narrow == narrow
    &&& s.reconcile_commands@.len() == 0
}

/// Counts the findings of a diff.
pub fn diff_summary(tools: &Vec<ToolDiffEntry>, dotfiles: &Vec<DotfileDiffEntry>, stale: usize, narrow: bool) -> (r: DiffSummary)
    requires
        tools@.len() + dotfiles@.len() <= usize::MAX,
    ensures
        summary_of(r, tools@, dotfiles@, stale, narrow),
{
    let mut ok: usize = 0;
    let mut missing: usize = 0;
    let mut drifted: usize = 0;
    let mut version_unknown: usize = 0;
    let mut i: usize = 0;
    while i < tools.len()
        invariant
            i <= tools@.len(),
            ok == tool_count(tools@.take(i as int), "ok"@),
            missing == tool_count(tools@.take(i as int), "missing"@),
            drifted == tool_count(tools@.take(i as int), "drifted"@),
            version_unknown == tool_count(tools@.take(i as int), "version_unknown"@),
        decreases tools@.len() - i,
    {
        proof {
            assert(tools@.take(i + 1).drop_last() =~= tools@.take(i as int));
            lemma_tool_count_le(tools@.take(i as int), "ok"@);
            lemma_tool_count_le(tools@.take(i as int), "missing"@);
            lemma_tool_count_le(tools@.take(i as int), "drifted"@);
            lemma_tool_count_le(tools@.take(i as int), "version_unknown"@);
        }
        proof {
            reveal_strlit("ok");
            reveal_strlit("missing");
            reveal_strlit("drifted");
            reveal_strlit("version_unknown");
            assert("ok"@.len() == 2 && "missing"@.len() == 7 && "drifted"@.len() == 7);
            assert("version_unknown"@.len() == 15);
            assert("missing"@[0] != "drifted"@[0]);
        }
        let st = tools[i].status.as_str();
        if str_eq(st, "ok") {
            ok = ok + 1;
        } else if str_eq(st, "missing") {
            missing = missing + 1;
        } else if str_eq(st, "drifted") {
            drifted = drifted + 1;
        } else if str_eq(st, "version_unknown") {
            version_unknown = version_unknown + 1;
        }
        i += 1;
    }
    assert(tools@.take(tools@.len() as int) =~= tools@);
    proof {
        lemma_tool_count_le(tools@, "ok"@);
        lemma_tool_count_le(tools@, "missing"@);
    }
    let mut wrong_target: usize = 0;
    let mut j: usize = 0;
    while j < dotfiles.len()
        invariant
            j <= dotfiles@.len(),
            tools@.len() + dotfiles@.len() <= usize::MAX,
            ok == tool_count(tools@, "ok"@) + dotfile_count(dotfiles@.take(j as int), "ok"@),
            missing == tool_count(tools@, "missing"@) + dotfile_count(dotfiles@.take(j as int), "missing"@),
            wrong_target == dotfile_count(dotfiles@.take(j as int), "wrong_target"@),
            tool_count(tools@, "ok"@) <= tools@.len(),
            tool_count(tools@, "missing"@) <= tools@.len(),
        decreases dotfiles@.len() - j,
    {
        proof {
            assert(dotfiles@.take(j + 1).drop_last() =~= dotfiles@.take(j as int));
            lemma_dotfile_count_le(dotfiles@.take(j as int), "ok"@);
            lemma_dotfile_count_le(dotfiles@.take(j as int), "missing"@);
            lemma_dotfile_count_le(dotfiles@.take(j as int), "wrong_target"@);
        }
        proof {
            reveal_strlit("ok");
            reveal_strlit("missing");
            reveal_strlit("wrong_target");
            assert("ok"@.len() == 2 && "missing"@.len() == 7 && "wrong_target"@.len() == 12);
        }
        let st = dotfiles[j].status.as_str();
        if str_eq(st, "ok") {
            ok = ok + 1;
        } else if str_eq(st, "missing") {
            missing = missing + 1;
        } else if str_eq(st, "wrong_target") {
            wrong_target = wrong_target + 1;
        }
        j += 1;
    }
    assert(dotfiles@.take(dotfiles@.len() as int) =~= dotfiles@);
    DiffSummary { ok, missing, drifted, stale, wrong_target, version_unknown, narrow, reconcile_commands: Vec::new() }
}

/// Whether a diff found anything to act on: a missing, drifted or
/// unknown-version tool, a dotfile pointing elsewhere, or a leftover.
pub fn has_issues(s: &DiffSummary) -> (r: bool)
    ensures
        r == (s.missing > 0 || s.drifted > 0 || s.stale > 0 || s.wrong_target > 0 || s.version_unknown > 0),
{
    s.missing > 0 || s.drifted > 0 || s.stale > 0 || s.wrong_target > 0 || s.version_unknown > 0
}

} // verus!
