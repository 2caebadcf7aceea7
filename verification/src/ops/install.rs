//! Install operation: the tool database, its validation, and how a tool's
//! install command and presence are resolved.
//!
//! Maps of the database are association lists in key order with distinct keys.

use vstd::prelude::*;
use crate::model::clone_opt;
use crate::text::{
    all_ws, ascii_lower, ascii_lower_seq, assoc_get, chars_eq, find_key, chars_of, contains, contains_str,
    has_prefix, is_blank, lookup, replace, replace_all, slice_chars, starts_with, str_views,
    string_of, to_ascii_lowercase, views, words, words_of,
};

verus! {

/// Whether a tool is already installed.
#[derive(Debug, Clone, Copy, PartialEq, Eq, Structural)]
pub enum InstallPresence {
    Present,
    Missing,
    Unknown,
}

/// A rendered install command and the operating systems it is limited to
/// (none: all).
#[derive(Debug)]
pub struct InstallCommand {
    pub command: String,
    pub os: Vec<String>,
}

/// One entry in the tool database.
#[derive(Debug)]
pub struct ToolEntry {
    pub name: String,
    pub binary: String,
    pub layer: String,
    /// "" (a package) or "font".
    pub kind: String,
    pub source_url: String,
    pub font_family: String,
    /// Install commands by install platform key.
    pub platforms: Vec<(String, InstallCommand)>,
}

/// The tool database.
#[derive(Debug)]
pub struct ToolDb {
    pub default_platforms: Vec<String>,
    pub templates: Vec<(String, InstallCommandTemplate)>,
    pub tools: Vec<(String, ToolRule)>,
}

/// A command template with a `{package}` placeholder.
#[derive(Debug)]
pub struct InstallCommandTemplate {
    pub command: String,
    pub platform: Option<String>,
    pub os: Vec<String>,
}

/// Per-tool overrides in the database.
#[derive(Debug)]
pub struct ToolRule {
    pub binary: Option<String>,
    pub layer: Option<String>,
    pub kind: String,
    pub source_url: String,
    pub font_family: String,
    pub package: Option<String>,
    pub packages: Vec<(String, String)>,
    pub platforms: Option<Vec<String>>,
}

/// Fully resolved install data captured when a plan is built.
#[derive(Debug)]
pub struct InstallSpec {
    pub entry: ToolEntry,
    pub pkg_mgr: String,
    pub command: Option<String>,
    pub error: Option<String>,
}

impl InstallCommand {
    /// The command text.
    pub fn command(&self) -> (r: &str)
        ensures
            r@ == self.command@,
    {
        self.command.as_str()
    }

    /// The command runs on `os_name`: it names no OS, or names this one.
    pub fn supports_os(&self, os_name: &str) -> (r: bool)
        ensures
            r == (self.os@.len() == 0 || str_views(self.os@).contains(os_name@)),
    {
        self.os.len() == 0 || contains_str(&self.os, os_name)
    }
}

/// The layer the database assigns to a tool, if it names one.
pub open spec fn tool_layer_spec(db: ToolDb, name: Seq<char>) -> Option<String> {
    match assoc_get(db.tools@, name) {
        Some(rule) => rule.layer,
        None => None,
    }
}

/// The layer the database assigns to a tool, if any.
pub fn tool_layer(db: &ToolDb, name: &str) -> (r: Option<String>)
    ensures
        r == tool_layer_spec(*db, name@),
{
    match lookup(&db.tools, name) {
        Some(rule) => clone_opt(&rule.layer),
        None => None,
    }
}

/// The package name a tool installs under for a platform: a per-platform
/// override, else the rule's package, else the tool name.
pub open spec fn package_spec(name: Seq<char>, key: Seq<char>, rule: Option<ToolRule>) -> Seq<char> {
    match rule {
        Some(r) => match assoc_get(r.packages@, key) {
            Some(p) => p@,
            None => match r.package {
                Some(p) => p@,
                None => name,
            },
        },
        None => name,
    }
}

/// The package name a tool installs under for a platform.
pub fn package_for(name: &str, platform_key: &str, rule: Option<&ToolRule>) -> (r: String)
    ensures
        r@ == package_spec(name@, platform_key@, match rule {
            Some(x) => Some(*x),
            None => None,
        }),
{
    match rule {
        Some(r) => match lookup(&r.packages, platform_key) {
            Some(p) => p.clone(),
            None => match &r.package {
                Some(p) => p.clone(),
                None => String::from_str(name),
            },
        },
        None => String::from_str(name),
    }
}

/// The command a template renders for a package: every `{package}` replaced.
pub open spec fn rendered_command(t: InstallCommandTemplate, package: Seq<char>) -> Seq<char> {
    replace_all(t.command@, "{package}"@, package)
}

impl InstallCommandTemplate {
    /// Renders the template for a package.
    pub fn render(&self, package: &str) -> (r: InstallCommand)
        ensures
            r.command@ == rendered_command(*self, package@),
            str_views(r.os@) == str_views(self.os@),
    {
        let pat = chars_of("{package}");
        proof {
            reveal_strlit("{package}");
        }
        let cmd = replace(chars_of(self.command.as_str()).as_slice(), pat.as_slice(), chars_of(package).as_slice());
        let mut os: Vec<String> = Vec::new();
        let mut i: usize = 0;
        while i < self.os.len()
            invariant
                i <= self.os.len(),
                str_views(os@) =~= str_views(self.os@).take(i as int),
            decreases self.os.len() - i,
        {
            let ghost prev = os@;
            os.push(self.os[i].clone());
            assert(str_views(os@) =~= str_views(prev).push(self.os@[i as int]@));
            assert(str_views(self.os@).take(i + 1) =~= str_views(self.os@).take(i as int).push(
                self.os@[i as int]@,
            ));
            i += 1;
        }
        assert(str_views(self.os@).take(self.os.len() as int) =~= str_views(self.os@));
        InstallCommand { command: string_of(cmd.as_slice()), os }
    }
}

/// The last word of `ws` that does not start with `-`.
pub open spec fn last_non_flag(ws: Seq<Seq<char>>) -> Option<Seq<char>>
    decreases ws.len(),
{
    if ws.len() == 0 {
        None
    } else if !(ws.last().len() > 0 && ws.last()[0] == '-') {
        Some(ws.last())
    } else {
        last_non_flag(ws.drop_last())
    }
}

/// The cask a `brew install --cask ...` command installs: the last
/// non-flag word after `brew install`.
pub open spec fn cask_spec(command: Seq<char>) -> Option<Seq<char>> {
    let ws = words_of(command);
    if ws.len() >= 2 && ws[0] == "brew"@ && ws[1] == "install"@ && ws.contains("--cask"@) {
        last_non_flag(ws.skip(2))
    } else {
        None
    }
}

/// The cask package of a `brew install --cask` command, if it is one.
pub fn cask_package_from_command(command: &str) -> (r: Option<String>)
    ensures
        match r {
            Some(p) => cask_spec(command@) == Some(p@),
            None => cask_spec(command@) is None,
        },
{
    let ws = words(chars_of(command).as_slice());
    let brew = chars_of("brew");
    let install = chars_of("install");
    let cask = chars_of("--cask");
    if ws.len() < 2 || !chars_eq(ws[0].as_slice(), brew.as_slice()) || !chars_eq(
        ws[1].as_slice(),
        install.as_slice(),
    ) {
        return None;
    }
    let mut has_cask = false;
    let mut i: usize = 0;
    while i < ws.len()
        invariant
            i <= ws.len(),
            cask@ == "--cask"@,
            has_cask == exists|j: int| 0 <= j < i && ws@[j]@ == "--cask"@,
        decreases ws.len() - i,
    {
        if chars_eq(ws[i].as_slice(), cask.as_slice()) {
            has_cask = true;
        }
        i += 1;
    }
    proof {
        let w = views(ws@);
        if w.contains("--cask"@) {
            let k = choose|k: int| 0 <= k < w.len() && w[k] == "--cask"@;
            assert(ws@[k]@ == "--cask"@);
        }
        if has_cask {
            let k = choose|j: int| 0 <= j < ws@.len() && ws@[j]@ == "--cask"@;
            assert(w[k] == "--cask"@);
        }
    }
    if !has_cask {
        return None;
    }
    assert(cask_spec(command@) == last_non_flag(views(ws@).skip(2)));
    assert(views(ws@).subrange(2, ws.len() as int) =~= views(ws@).skip(2));
    let mut k = ws.len();
    while k > 2
        invariant
            2 <= k <= ws.len(),
            cask_spec(command@) == last_non_flag(views(ws@).skip(2)),
            last_non_flag(views(ws@).skip(2)) == last_non_flag(views(ws@).subrange(2, k as int)),
        decreases k,
    {
        let ghost cur = views(ws@).subrange(2, k as int);
        let w = &ws[k - 1];
        if !(w.len() > 0 && w[0] == '-') {
            return Some(string_of(w.as_slice()));
        }
        assert(cur.drop_last() =~= views(ws@).subrange(2, k - 1));
        k -= 1;
    }
    None
}

/// A separator in a cask name.
pub open spec fn is_bundle_sep(c: char) -> bool {
    c == '-' || c == '_' || c == '.'
}

/// `char::to_ascii_uppercase`.
pub open spec fn ascii_upper(c: char) -> char {
    if 'a' <= c && c <= 'z' {
        ((c as u32) - 32) as char
    } else {
        c
    }
}

/// The characters of an app bundle name: separators dropped, the first
/// character of each part upper-cased.
pub open spec fn bundle_chars(s: Seq<char>, at_start: bool) -> Seq<char>
    decreases s.len(),
{
    if s.len() == 0 {
        seq![]
    } else if is_bundle_sep(s[0]) {
        bundle_chars(s.drop_first(), true)
    } else {
        seq![if at_start { ascii_upper(s[0]) } else { s[0] }] + bundle_chars(s.drop_first(), false)
    }
}

fn to_ascii_upper(c: char) -> (r: char)
    ensures
        r == ascii_upper(c),
{
    if 'a' <= c && c <= 'z' {
        let code: u32 = (c as u32) - 32;
        let b: u8 = code as u8;
        b as char
    } else {
        c
    }
}

/// The macOS app bundle name of a cask: `visual-studio-code` becomes
/// `VisualStudioCode.app`.
pub fn app_bundle_name(package: &str) -> (r: String)
    ensures
        r@ == bundle_chars(package@, true) + ".app"@,
{
    let v = chars_of(package);
    let mut out: Vec<char> = Vec::new();
    let mut at_start = true;
    let mut i: usize = 0;
    assert(v@.skip(0) =~= v@);
    while i < v.len()
        invariant
            i <= v.len(),
            v@ == package@,
            bundle_chars(package@, true) == out@ + bundle_chars(v@.skip(i as int), at_start),
        decreases v.len() - i,
    {
        let ghost rest = v@.skip(i as int);
        assert(rest.drop_first() =~= v@.skip(i + 1));
        let c = v[i];
        if c == '-' || c == '_' || c == '.' {
            at_start = true;
        } else {
            let d = if at_start { to_ascii_upper(c) } else { c };
            let ghost before = out@;
            out.push(d);
            assert(before + (seq![d] + bundle_chars(v@.skip(i + 1), false)) =~= out@ + bundle_chars(
                v@.skip(i + 1),
                false,
            ));
            at_start = false;
        }
        i += 1;
    }
    assert(v@.skip(v.len() as int) =~= Seq::<char>::empty());
    assert(out@ + Seq::<char>::empty() =~= out@);
    let mut s = string_of(out.as_slice());
    s.append(".app");
    s
}

/// `s` with every leading occurrence of `p` removed (`trim_start_matches`).
pub open spec fn strip_prefix_all(s: Seq<char>, p: Seq<char>) -> Seq<char>
    decreases s.len(),
{
    if p.len() > 0 && has_prefix(s, p) {
        strip_prefix_all(s.skip(p.len() as int), p)
    } else {
        s
    }
}

/// `s` without spaces, dashes and underscores.
pub open spec fn squeeze(s: Seq<char>) -> Seq<char>
    decreases s.len(),
{
    if s.len() == 0 {
        s
    } else if s.last() == ' ' || s.last() == '-' || s.last() == '_' {
        squeeze(s.drop_last())
    } else {
        squeeze(s.drop_last()).push(s.last())
    }
}

/// The token a font's file names are matched by: the family (or the tool
/// name without `font-` prefixes) in ASCII lowercase, without spaces,
/// dashes and underscores.
pub open spec fn font_token_spec(name: Seq<char>, family: Seq<char>) -> Seq<char> {
    let raw = if all_ws(family) {
        strip_prefix_all(name, "font-"@)
    } else {
        family
    };
    squeeze(ascii_lower_seq(raw))
}

/// The token a font tool's installed files are matched by.
pub fn font_match_token(entry: &ToolEntry) -> (r: String)
    ensures
        r@ == font_token_spec(entry.name@, entry.font_family@),
{
    let raw: Vec<char> = if is_blank(entry.font_family.as_str()) {
        let v = chars_of(entry.name.as_str());
        let p = chars_of("font-");
        proof {
            reveal_strlit("font-");
        }
        assert(p@.len() == 5);
        let mut a: usize = 0;
        assert(v@.skip(0) =~= v@);
        while a <= v.len() && starts_with(slice_chars(v.as_slice(), a, v.len()).as_slice(), p.as_slice())
            invariant
                a <= v.len(),
                p@ == "font-"@,
                p@.len() == 5,
                strip_prefix_all(v@, p@) == strip_prefix_all(v@.skip(a as int), p@),
            decreases v.len() - a,
        {
            assert(v@.subrange(a as int, v.len() as int) =~= v@.skip(a as int));
            assert(v@.skip(a as int).skip(5) =~= v@.skip(a + 5));
            a = a + 5;
        }
        assert(v@.subrange(a as int, v.len() as int) =~= v@.skip(a as int));
        slice_chars(v.as_slice(), a, v.len())
    } else {
        chars_of(entry.font_family.as_str())
    };
    let lower = to_ascii_lowercase(raw.as_slice());
    let mut out: Vec<char> = Vec::new();
    let mut i: usize = 0;
    while i < lower.len()
        invariant
            i <= lower.len(),
            out@ == squeeze(lower@.take(i as int)),
        decreases lower.len() - i,
    {
        let c = lower[i];
        proof {
            assert(lower@.take(i + 1).drop_last() =~= lower@.take(i as int));
        }
        if !(c == ' ' || c == '-' || c == '_') {
            out.push(c);
        }
        i += 1;
    }
    assert(lower@.take(lower.len() as int) =~= lower@);
    string_of(out.as_slice())
}

} // verus!

verus! {

/// A template's install platform key: its `platform`, else its own name.
pub open spec fn install_key(t: InstallCommandTemplate, name: Seq<char>) -> Seq<char> {
    match t.platform {
        Some(p) => p@,
        None => name,
    }
}

/// The platform names a tool installs through: its own list, else the defaults.
pub open spec fn tool_platforms(db: ToolDb, rule: ToolRule) -> Seq<String> {
    match rule.platforms {
        Some(p) => p@,
        None => db.default_platforms@,
    }
}

/// `s` is "font".
pub open spec fn is_font_kind(s: Seq<char>) -> bool {
    s == "font"@
}

/// `'` + `s` + `'`.
pub open spec fn q(s: Seq<char>) -> Seq<char> {
    "'"@ + s + "'"@
}

/// What is wrong with a template, if anything (the first problem found).
pub open spec fn template_error(name: Seq<char>, t: InstallCommandTemplate) -> Option<Seq<char>> {
    if all_ws(name) {
        Some("tool db contains an empty template name"@)
    } else if all_ws(t.command@) {
        Some("template "@ + q(name) + " has an empty command"@)
    } else if t.platform matches Some(p) && all_ws(p@) {
        Some("template "@ + q(name) + " has an empty platform"@)
    } else if exists|i: int| 0 <= i < t.os@.len() && all_ws(#[trigger] t.os@[i]@) {
        Some("template "@ + q(name) + " contains an empty os value"@)
    } else {
        None
    }
}

/// The first package override, from position `j` on, naming no template.
pub open spec fn unknown_override_from(db: ToolDb, packages: Seq<(String, String)>, j: int) -> Option<
    Seq<char>,
>
    decreases packages.len() - j,
{
    if j < 0 || j >= packages.len() {
        None
    } else if assoc_get(db.templates@, packages[j].0@) is None {
        Some(packages[j].0@)
    } else {
        unknown_override_from(db, packages, j + 1)
    }
}

/// The first problem with a tool's platform names from position `j` on,
/// `seen` being the install keys of the earlier ones: an unknown template,
/// or two templates for one install platform.
pub open spec fn platforms_error_from(
    db: ToolDb,
    name: Seq<char>,
    plats: Seq<String>,
    j: int,
    seen: Seq<Seq<char>>,
) -> Option<Seq<char>>
    decreases plats.len() - j,
{
    if j < 0 || j >= plats.len() {
        None
    } else {
        match assoc_get(db.templates@, plats[j]@) {
            None => Some("tool "@ + q(name) + " references unknown template "@ + q(plats[j]@)),
            Some(t) => if seen.contains(install_key(t, plats[j]@)) {
                Some(
                    "tool "@ + q(name) + " maps multiple templates to install platform "@ + q(
                        install_key(t, plats[j]@),
                    ),
                )
            } else {
                platforms_error_from(db, name, plats, j + 1, seen.push(install_key(t, plats[j]@)))
            },
        }
    }
}

/// What is wrong with a tool rule, if anything (the first problem found).
pub open spec fn rule_error(db: ToolDb, name: Seq<char>, rule: ToolRule) -> Option<Seq<char>> {
    let plats = tool_platforms(db, rule);
    if all_ws(name) {
        Some("tool db contains an empty tool name"@)
    } else if rule.binary matches Some(b) && all_ws(b@) {
        Some("tool "@ + q(name) + " has an empty binary"@)
    } else if rule.layer matches Some(l) && all_ws(l@) {
        Some("tool "@ + q(name) + " has an empty layer"@)
    } else if !(rule.kind@.len() == 0 || is_font_kind(rule.kind@)) {
        Some("tool "@ + q(name) + " has unsupported kind "@ + q(rule.kind@))
    } else if is_font_kind(rule.kind@) && all_ws(rule.font_family@) {
        Some("font tool "@ + q(name) + " is missing font_family"@)
    } else if (rule.package matches Some(p) && all_ws(p@)) || exists|i: int|
        0 <= i < rule.packages@.len() && all_ws(#[trigger] rule.packages@[i].1@) {
        Some("tool "@ + q(name) + " contains an empty package name"@)
    } else if unknown_override_from(db, rule.packages@, 0) is Some {
        Some(
            "tool "@ + q(name) + " has a package override for unknown template "@ + q(
                unknown_override_from(db, rule.packages@, 0)->0,
            ),
        )
    } else if plats.len() == 0 && !(is_font_kind(rule.kind@) && rule.source_url@.len() > 0) {
        Some("tool "@ + q(name) + " has no install platforms"@)
    } else {
        platforms_error_from(db, name, plats, 0, seq![])
    }
}

/// The first default platform, from position `j` on, whose template is
/// missing or lacks the `{package}` placeholder, with its message.
pub open spec fn default_error_from(db: ToolDb, j: int) -> Option<Seq<char>>
    decreases db.default_platforms@.len() - j,
{
    if j < 0 || j >= db.default_platforms@.len() {
        None
    } else {
        let p = db.default_platforms@[j]@;
        match assoc_get(db.templates@, p) {
            None => Some("default platform "@ + q(p) + " references an unknown template"@),
            Some(t) => if !crate::text::contains_seq(t.command@, "{package}"@) {
                Some("default platform template "@ + q(p) + " must contain '{package}'"@)
            } else {
                default_error_from(db, j + 1)
            },
        }
    }
}

/// The first template error from position `j` on.
pub open spec fn templates_error_from(db: ToolDb, j: int) -> Option<Seq<char>>
    decreases db.templates@.len() - j,
{
    if j < 0 || j >= db.templates@.len() {
        None
    } else if template_error(db.templates@[j].0@, db.templates@[j].1) is Some {
        template_error(db.templates@[j].0@, db.templates@[j].1)
    } else {
        templates_error_from(db, j + 1)
    }
}

/// The first tool error from position `j` on.
pub open spec fn tools_error_from(db: ToolDb, j: int) -> Option<Seq<char>>
    decreases db.tools@.len() - j,
{
    if j < 0 || j >= db.tools@.len() {
        None
    } else if rule_error(db, db.tools@[j].0@, db.tools@[j].1) is Some {
        rule_error(db, db.tools@[j].0@, db.tools@[j].1)
    } else {
        tools_error_from(db, j + 1)
    }
}

/// What is wrong with the tool database, if anything: it needs default
/// platforms, whose templates hold `{package}`; then the templates and then
/// the tools are checked in key order, the first problem being reported.
pub open spec fn db_error(db: ToolDb) -> Option<Seq<char>> {
    if db.default_platforms@.len() == 0 {
        Some("tool db has no default_platforms"@)
    } else if default_error_from(db, 0) is Some {
        default_error_from(db, 0)
    } else if templates_error_from(db, 0) is Some {
        templates_error_from(db, 0)
    } else {
        tools_error_from(db, 0)
    }
}

fn quoted(s: &str) -> (r: String)
    ensures
        r@ == q(s@),
{
    let mut r = String::from_str("'");
    r.append(s);
    r.append("'");
    r
}

fn message(head: &str, name: &str, tail: &str) -> (r: String)
    ensures
        r@ == head@ + q(name@) + tail@,
{
    let mut r = String::from_str(head);
    r.append(quoted(name).as_str());
    r.append(tail);
    r
}

#[verifier::loop_isolation(false)]
fn check_template(name: &String, t: &InstallCommandTemplate) -> (r: Result<(), String>)
    ensures
        match template_error(name@, *t) {
            None => r is Ok,
            Some(m) => r matches Err(e) && e@ == m,
        },
{
    if is_blank(name.as_str()) {
        return Err(String::from_str("tool db contains an empty template name"));
    }
    if is_blank(t.command.as_str()) {
        return Err(message("template ", name.as_str(), " has an empty command"));
    }
    match &t.platform {
        Some(p) => {
            if is_blank(p.as_str()) {
                return Err(message("template ", name.as_str(), " has an empty platform"));
            }
        },
        None => {},
    }
    let mut i: usize = 0;
    while i < t.os.len()
        invariant
            i <= t.os.len(),
            forall|k: int| 0 <= k < i ==> !all_ws(#[trigger] t.os@[k]@),
        decreases t.os.len() - i,
    {
        if is_blank(t.os[i].as_str()) {
            assert(all_ws(t.os@[i as int]@));
            return Err(message("template ", name.as_str(), " contains an empty os value"));
        }
        i += 1;
    }
    Ok(())
}

#[verifier::loop_isolation(false)]
fn check_rule(db: &ToolDb, name: &String, rule: &ToolRule) -> (r: Result<(), String>)
    ensures
        match rule_error(*db, name@, *rule) {
            None => r is Ok,
            Some(m) => r matches Err(e) && e@ == m,
        },
{
    let n = name.as_str();
    if is_blank(n) {
        return Err(String::from_str("tool db contains an empty tool name"));
    }
    match &rule.binary {
        Some(b) => {
            if is_blank(b.as_str()) {
                return Err(message("tool ", n, " has an empty binary"));
            }
        },
        None => {},
    }
    match &rule.layer {
        Some(l) => {
            if is_blank(l.as_str()) {
                return Err(message("tool ", n, " has an empty layer"));
            }
        },
        None => {},
    }
    let font = chars_eq(chars_of(rule.kind.as_str()).as_slice(), chars_of("font").as_slice());
    if !(chars_of(rule.kind.as_str()).len() == 0 || font) {
        let mut e = message("tool ", n, " has unsupported kind ");
        e.append(quoted(rule.kind.as_str()).as_str());
        return Err(e);
    }
    if font && is_blank(rule.font_family.as_str()) {
        return Err(message("font tool ", n, " is missing font_family"));
    }
    let mut empty_package = match &rule.package {
        Some(p) => is_blank(p.as_str()),
        None => false,
    };
    let mut i: usize = 0;
    while i < rule.packages.len() && !empty_package
        invariant
            i <= rule.packages.len(),
            empty_package == ((rule.package matches Some(p) && all_ws(p@)) || exists|k: int|
                0 <= k < i && all_ws(#[trigger] rule.packages@[k].1@)),
        decreases rule.packages.len() - i,
    {
        if is_blank(rule.packages[i].1.as_str()) {
            empty_package = true;
        }
        i += 1;
    }
    if empty_package {
        return Err(message("tool ", n, " contains an empty package name"));
    }
    assert(!exists|k: int| 0 <= k < rule.packages@.len() && all_ws(#[trigger] rule.packages@[k].1@));
    let mut j: usize = 0;
    while j < rule.packages.len()
        invariant
            j <= rule.packages.len(),
            unknown_override_from(*db, rule.packages@, 0) == unknown_override_from(
                *db,
                rule.packages@,
                j as int,
            ),
        decreases rule.packages.len() - j,
    {
        match lookup(&db.templates, rule.packages[j].0.as_str()) {
            Some(_) => {},
            None => {
                let mut e = message("tool ", n, " has a package override for unknown template ");
                e.append(quoted(rule.packages[j].0.as_str()).as_str());
                return Err(e);
            },
        }
        j += 1;
    }
    let plats: &Vec<String> = match &rule.platforms {
        Some(p) => p,
        None => &db.default_platforms,
    };
    assert(plats@ == tool_platforms(*db, *rule));
    if plats.len() == 0 && !(font && chars_of(rule.source_url.as_str()).len() > 0) {
        return Err(message("tool ", n, " has no install platforms"));
    }
    let mut keys: Vec<Vec<char>> = Vec::new();
    let mut m: usize = 0;
    assert(views(keys@) =~= Seq::<Seq<char>>::empty());
    while m < plats.len()
        invariant
            m <= plats.len(),
            plats@ == tool_platforms(*db, *rule),
            platforms_error_from(*db, name@, plats@, 0, seq![]) == platforms_error_from(
                *db,
                name@,
                plats@,
                m as int,
                views(keys@),
            ),
        decreases plats.len() - m,
    {
        let t = match lookup(&db.templates, plats[m].as_str()) {
            Some(t) => t,
            None => {
                let mut e = message("tool ", n, " references unknown template ");
                e.append(quoted(plats[m].as_str()).as_str());
                return Err(e);
            },
        };
        let key_str: &str = match &t.platform {
            Some(p) => p.as_str(),
            None => plats[m].as_str(),
        };
        let key = chars_of(key_str);
        assert(key@ == install_key(assoc_get(db.templates@, plats@[m as int]@)->0, plats@[m as int]@));
        let mut k: usize = 0;
        while k < keys.len()
            invariant
                k <= keys.len(),
                forall|a: int| 0 <= a < k ==> keys@[a]@ != key@,
            decreases keys.len() - k,
        {
            if crate::text::chars_eq(keys[k].as_slice(), key.as_slice()) {
                assert(views(keys@)[k as int] == key@);
                assert(views(keys@).contains(key@));
                let mut e = message("tool ", n, " maps multiple templates to install platform ");
                e.append(quoted(key_str).as_str());
                return Err(e);
            }
            k += 1;
        }
        assert(!views(keys@).contains(key@)) by {
            if views(keys@).contains(key@) {
                let a = choose|a: int| 0 <= a < views(keys@).len() && views(keys@)[a] == key@;
                assert(keys@[a]@ != key@);
            }
        }
        let ghost before = views(keys@);
        keys.push(key);
        assert(views(keys@) =~= before.push(key@));
        m += 1;
    }
    Ok(())
}

impl ToolDb {
    /// Checks the database, reporting the first problem found.
    #[verifier::loop_isolation(false)]
    pub fn validate(&self) -> (r: Result<(), String>)
        ensures
            match db_error(*self) {
                None => r is Ok,
                Some(m) => r matches Err(e) && e@ == m,
            },
    {
        if self.default_platforms.len() == 0 {
            return Err(String::from_str("tool db has no default_platforms"));
        }
        let pat = chars_of("{package}");
        let mut i: usize = 0;
        while i < self.default_platforms.len()
            invariant
                i <= self.default_platforms.len(),
                pat@ == "{package}"@,
                default_error_from(*self, 0) == default_error_from(*self, i as int),
            decreases self.default_platforms.len() - i,
        {
            let p = self.default_platforms[i].as_str();
            match lookup(&self.templates, p) {
                Some(t) => {
                    if !contains(chars_of(t.command.as_str()).as_slice(), pat.as_slice()) {
                        return Err(message("default platform template ", p, " must contain '{package}'"));
                    }
                },
                None => {
                    return Err(message("default platform ", p, " references an unknown template"));
                },
            }
            i += 1;
        }
        let mut j: usize = 0;
        while j < self.templates.len()
            invariant
                j <= self.templates.len(),
                default_error_from(*self, 0) is None,
                templates_error_from(*self, 0) == templates_error_from(*self, j as int),
            decreases self.templates.len() - j,
        {
            match check_template(&self.templates[j].0, &self.templates[j].1) {
                Ok(()) => {},
                Err(e) => {
                    return Err(e);
                },
            }
            j += 1;
        }
        let mut m: usize = 0;
        while m < self.tools.len()
            invariant
                m <= self.tools.len(),
                default_error_from(*self, 0) is None,
                templates_error_from(*self, 0) is None,
                tools_error_from(*self, 0) == tools_error_from(*self, m as int),
            decreases self.tools.len() - m,
        {
            match check_rule(self, &self.tools[m].0, &self.tools[m].1) {
                Ok(()) => {},
                Err(e) => {
                    return Err(e);
                },
            }
            m += 1;
        }
        Ok(())
    }
}

} // verus!

verus! {

/// The view of an install command: its text and OS list.
pub open spec fn command_view(c: InstallCommand) -> (Seq<char>, Seq<Seq<char>>) {
    (c.command@, str_views(c.os@))
}

/// The view of a platform map.
pub open spec fn platforms_view(v: Seq<(String, InstallCommand)>) -> Seq<(Seq<char>, (Seq<char>, Seq<Seq<char>>))> {
    Seq::new(v.len(), |i: int| (v[i].0@, command_view(v[i].1)))
}

/// Inserts into a map view: replaces the value of an existing key in place,
/// else appends.
pub open spec fn view_insert<V>(m: Seq<(Seq<char>, V)>, k: Seq<char>, v: V) -> Seq<(Seq<char>, V)>
    decreases m.len(),
{
    if m.len() == 0 {
        seq![(k, v)]
    } else if m[0].0 == k {
        seq![(k, v)] + m.drop_first()
    } else {
        seq![m[0]] + view_insert(m.drop_first(), k, v)
    }
}

/// The install commands a tool gets from its platform names, in order, each
/// under its template's install key; `None` when a name has no template.
pub open spec fn expand_fold(
    db: ToolDb,
    name: Seq<char>,
    rule: Option<ToolRule>,
    keys: Seq<String>,
) -> Option<Seq<(Seq<char>, (Seq<char>, Seq<Seq<char>>))>>
    decreases keys.len(),
{
    if keys.len() == 0 {
        Some(seq![])
    } else {
        match expand_fold(db, name, rule, keys.drop_last()) {
            None => None,
            Some(acc) => match assoc_get(db.templates@, keys.last()@) {
                None => None,
                Some(t) => Some(
                    view_insert(
                        acc,
                        install_key(t, keys.last()@),
                        (rendered_command(t, package_spec(name, keys.last()@, rule)), str_views(t.os@)),
                    ),
                ),
            },
        }
    }
}

/// The platform names a tool (or an unknown tool) installs through.
pub open spec fn platform_names(db: ToolDb, rule: Option<ToolRule>) -> Seq<String> {
    match rule {
        Some(r) => tool_platforms(db, r),
        None => db.default_platforms@,
    }
}

proof fn lemma_view_insert_at<V>(m: Seq<(Seq<char>, V)>, k: Seq<char>, v: V, i: int)
    requires
        0 <= i < m.len(),
        m[i].0 == k,
        forall|j: int| 0 <= j < i ==> m[j].0 != k,
    ensures
        view_insert(m, k, v) == m.update(i, (k, v)),
    decreases i,
{
    if i == 0 {
        assert(seq![(k, v)] + m.drop_first() =~= m.update(0, (k, v)));
    } else {
        lemma_view_insert_at(m.drop_first(), k, v, i - 1);
        assert(seq![m[0]] + m.drop_first().update(i - 1, (k, v)) =~= m.update(i, (k, v)));
    }
}

proof fn lemma_view_insert_new<V>(m: Seq<(Seq<char>, V)>, k: Seq<char>, v: V)
    requires
        forall|j: int| 0 <= j < m.len() ==> m[j].0 != k,
    ensures
        view_insert(m, k, v) == m.push((k, v)),
    decreases m.len(),
{
    if m.len() > 0 {
        lemma_view_insert_new(m.drop_first(), k, v);
        assert(seq![m[0]] + m.drop_first().push((k, v)) =~= m.push((k, v)));
    }
}

/// Expands a tool's platform names into install commands.
pub fn expand_platforms(db: &ToolDb, name: &str, rule: Option<&ToolRule>) -> (r: Option<Vec<(String, InstallCommand)>>)
    ensures
        match r {
            Some(v) => expand_fold(*db, name@, opt_rule(rule), platform_names(*db, opt_rule(rule))) == Some(platforms_view(v@)),
            None => expand_fold(*db, name@, opt_rule(rule), platform_names(*db, opt_rule(rule))) is None,
        },
{
    let keys: &Vec<String> = match rule {
        Some(r) => match &r.platforms {
            Some(p) => p,
            None => &db.default_platforms,
        },
        None => &db.default_platforms,
    };
    let ghost ks = platform_names(*db, opt_rule(rule));
    assert(keys@ == ks);
    let mut out: Vec<(String, InstallCommand)> = Vec::new();
    let mut i: usize = 0;
    while i < keys.len()
        invariant
            i <= keys.len(),
            keys@ == ks,
            ks == platform_names(*db, opt_rule(rule)),
            expand_fold(*db, name@, opt_rule(rule), ks.take(i as int)) == Some(platforms_view(out@)),
        decreases keys.len() - i,
    {
        proof {
            assert(ks.take(i + 1).drop_last() =~= ks.take(i as int));
        }
        let t = match lookup(&db.templates, keys[i].as_str()) {
            Some(t) => t,
            None => {
                proof {
                    let ki = ks.take(i + 1);
                    assert(ki.last() == keys@[i as int]);
                    assert(assoc_get(db.templates@, ki.last()@) is None);
                    assert(expand_fold(*db, name@, opt_rule(rule), ki) is None);
                    lemma_expand_none_extends(*db, name@, opt_rule(rule), ks, i as int + 1);
                    assert(expand_fold(*db, name@, opt_rule(rule), ks) is None);
                    assert(expand_fold(*db, name@, opt_rule(rule), platform_names(*db, opt_rule(rule))) is None);
                }
                return None;
            },
        };
        let package = package_for(name, keys[i].as_str(), rule);
        let ikey: String = match &t.platform {
            Some(p) => p.clone(),
            None => keys[i].clone(),
        };
        let cmd = t.render(package.as_str());
        let ghost before = platforms_view(out@);
        let ghost entry = (ikey@, command_view(cmd));
        assert(entry.1 == (rendered_command(*t, package_spec(name@, keys@[i as int]@, opt_rule(rule))), str_views(t.os@)));
        match find_key(&out, ikey.as_str()) {
            Some(k) => {
                proof {
                    lemma_view_insert_at(before, ikey@, entry.1, k as int);
                }
                out.set(k, (ikey, cmd));
                assert(platforms_view(out@) =~= before.update(k as int, entry));
            },
            None => {
                proof {
                    lemma_view_insert_new(before, ikey@, entry.1);
                }
                out.push((ikey, cmd));
                assert(platforms_view(out@) =~= before.push(entry));
            },
        }
        i += 1;
    }
    assert(ks.take(keys.len() as int) =~= ks);
    Some(out)
}

/// The rule a reference points to.
pub open spec fn opt_rule(rule: Option<&ToolRule>) -> Option<ToolRule> {
    match rule {
        Some(r) => Some(*r),
        None => None,
    }
}

proof fn lemma_expand_none_extends(db: ToolDb, name: Seq<char>, rule: Option<ToolRule>, ks: Seq<String>, k: int)
    requires
        0 <= k <= ks.len(),
        expand_fold(db, name, rule, ks.take(k)) is None,
    ensures
        expand_fold(db, name, rule, ks) is None,
    decreases ks.len() - k,
{
    if k < ks.len() {
        assert(ks.take(k + 1).drop_last() =~= ks.take(k));
        lemma_expand_none_extends(db, name, rule, ks, k + 1);
    } else {
        assert(ks.take(k) =~= ks);
    }
}

/// The tool entry the database resolves a name to: its rule's overrides,
/// or defaults (the name as binary, layer "software"); `None` for a blank
/// name or when a platform has no template.
pub open spec fn find_spec_ok(db: ToolDb, name: Seq<char>, e: ToolEntry) -> bool {
    let rule = assoc_get(db.tools@, name);
    &&& !all_ws(name)
    &&& e.name@ == name
    &&& e.binary@ == match rule {
        Some(r) => match r.binary {
            Some(b) => b@,
            None => name,
        },
        None => name,
    }
    &&& e.layer@ == match rule {
        Some(r) => match r.layer {
            Some(l) => l@,
            None => "software"@,
        },
        None => "software"@,
    }
    &&& e.kind@ == match rule {
        Some(r) => r.kind@,
        None => Seq::<char>::empty(),
    }
    &&& e.source_url@ == match rule {
        Some(r) => r.source_url@,
        None => Seq::<char>::empty(),
    }
    &&& e.font_family@ == match rule {
        Some(r) => r.font_family@,
        None => Seq::<char>::empty(),
    }
    &&& expand_fold(db, name, rule, platform_names(db, rule)) == Some(platforms_view(e.platforms@))
}

/// Resolves a tool name against the database.
pub fn find(db: &ToolDb, name: &str) -> (r: Option<ToolEntry>)
    ensures
        match r {
            Some(e) => find_spec_ok(*db, name@, e),
            None => all_ws(name@) || expand_fold(*db, name@, assoc_get(db.tools@, name@), platform_names(*db, assoc_get(db.tools@, name@))) is None,
        },
{
    if is_blank(name) {
        return None;
    }
    let rule = lookup(&db.tools, name);
    let binary = match rule {
        Some(r) => match &r.binary {
            Some(b) => b.clone(),
            None => String::from_str(name),
        },
        None => String::from_str(name),
    };
    let layer = match rule {
        Some(r) => match &r.layer {
            Some(l) => l.clone(),
            None => String::from_str("software"),
        },
        None => String::from_str("software"),
    };
    let kind = match rule {
        Some(r) => r.kind.clone(),
        None => String::new(),
    };
    let source_url = match rule {
        Some(r) => r.source_url.clone(),
        None => String::new(),
    };
    let font_family = match rule {
        Some(r) => r.font_family.clone(),
        None => String::new(),
    };
    let platforms = match expand_platforms(db, name, rule) {
        Some(p) => p,
        None => {
            return None;
        },
    };
    Some(ToolEntry { name: String::from_str(name), binary, layer, kind, source_url, font_family, platforms })
}

/// The command runs on the machine: it supports the OS name, or the distro.
pub open spec fn supported_here(c: (Seq<char>, Seq<Seq<char>>), os: Seq<char>, distro: Option<Seq<char>>) -> bool {
    c.1.len() == 0 || c.1.contains(os) || (distro matches Some(d) && c.1.contains(d))
}

/// The platform keys tried, in order: the package manager, then the distro
/// and the OS name when not already listed.
pub open spec fn candidate_keys(pkg_mgr: Seq<char>, distro: Option<Seq<char>>, os: Seq<char>) -> Seq<Seq<char>> {
    let a = seq![pkg_mgr];
    let b = match distro {
        Some(d) => if a.contains(d) { a } else { a.push(d) },
        None => a,
    };
    if b.contains(os) { b } else { b.push(os) }
}

/// The value of key `k` in a map view.
pub open spec fn view_get<V>(m: Seq<(Seq<char>, V)>, k: Seq<char>) -> Option<V>
    decreases m.len(),
{
    if m.len() == 0 {
        None
    } else if m[0].0 == k {
        Some(m[0].1)
    } else {
        view_get(m.drop_first(), k)
    }
}

/// The command of the first candidate that has a command supported here.
pub open spec fn first_supported(
    m: Seq<(Seq<char>, (Seq<char>, Seq<Seq<char>>))>,
    cands: Seq<Seq<char>>,
    os: Seq<char>,
    distro: Option<Seq<char>>,
) -> Option<Seq<char>>
    decreases cands.len(),
{
    if cands.len() == 0 {
        None
    } else {
        match view_get(m, cands[0]) {
            Some(c) => if supported_here(c, os, distro) {
                Some(c.0)
            } else {
                first_supported(m, cands.drop_first(), os, distro)
            },
            None => first_supported(m, cands.drop_first(), os, distro),
        }
    }
}

/// The command an entry resolves to on this machine, or the reason none does.
pub open spec fn resolve_spec(e: ToolEntry, pkg_mgr: Seq<char>, distro: Option<Seq<char>>, os: Seq<char>) -> (Option<Seq<char>>, Option<Seq<char>>) {
    let m = platforms_view(e.platforms@);
    let cands = candidate_keys(pkg_mgr, distro, os);
    match first_supported(m, cands, os, distro) {
        Some(c) => (Some(c), None),
        None => if is_font_kind(e.kind@) {
            (None, if e.source_url@.len() == 0 {
                Some("font "@ + e.name@ + " missing source_url"@)
            } else {
                None
            })
        } else if exists|i: int| 0 <= i < cands.len() && view_get(m, #[trigger] cands[i]) is Some {
            (None, Some(e.name@ + " is not supported for "@ + pkg_mgr + " on "@ + os))
        } else {
            (None, Some("no install command for "@ + pkg_mgr))
        },
    }
}

proof fn lemma_view_get_index(v: Seq<(String, InstallCommand)>, k: Seq<char>, i: int)
    requires
        crate::text::key_index(v, k, i),
    ensures
        view_get(platforms_view(v), k) == Some(command_view(v[i].1)),
    decreases i,
{
    if i > 0 {
        assert(platforms_view(v).drop_first() =~= platforms_view(v.drop_first()));
        lemma_view_get_index(v.drop_first(), k, i - 1);
    }
}

proof fn lemma_view_get_absent(v: Seq<(String, InstallCommand)>, k: Seq<char>)
    requires
        crate::text::key_absent(v, k),
    ensures
        view_get(platforms_view(v), k) is None,
    decreases v.len(),
{
    if v.len() > 0 {
        assert(platforms_view(v).drop_first() =~= platforms_view(v.drop_first()));
        lemma_view_get_absent(v.drop_first(), k);
    }
}

fn push_if_absent(v: &mut Vec<String>, s: &str)
    ensures
        str_views(final(v)@) == if str_views(old(v)@).contains(s@) {
            str_views(old(v)@)
        } else {
            str_views(old(v)@).push(s@)
        },
{
    if !contains_str(v, s) {
        let ghost before = v@;
        v.push(String::from_str(s));
        assert(str_views(v@) =~= str_views(before).push(s@));
    }
}

/// Resolves the install command of an entry for a package manager on this
/// machine (`distro` and `os` name it), or the reason there is none.
pub fn resolve_command(entry: &ToolEntry, pkg_mgr: &str, distro: Option<&str>, os: &str) -> (r: (Option<String>, Option<String>))
    ensures
        crate::text::opt_string_view(r.0) == resolve_spec(*entry, pkg_mgr@, crate::text::opt_view(distro), os@).0,
        crate::text::opt_string_view(r.1) == resolve_spec(*entry, pkg_mgr@, crate::text::opt_view(distro), os@).1,
{
    let mut cands: Vec<String> = Vec::new();
    cands.push(String::from_str(pkg_mgr));
    assert(str_views(cands@) =~= seq![pkg_mgr@]);
    match distro {
        Some(d) => push_if_absent(&mut cands, d),
        None => {},
    }
    push_if_absent(&mut cands, os);
    let ghost cv = candidate_keys(pkg_mgr@, crate::text::opt_view(distro), os@);
    assert(str_views(cands@) == cv);
    let ghost m = platforms_view(entry.platforms@);
    let ghost dv = crate::text::opt_view(distro);
    let mut saw_unsupported = false;
    let mut i: usize = 0;
    assert(cv.skip(0) =~= cv);
    while i < cands.len()
        invariant
            i <= cands.len(),
            str_views(cands@) == cv,
            cv == candidate_keys(pkg_mgr@, crate::text::opt_view(distro), os@),
            m == platforms_view(entry.platforms@),
            dv == crate::text::opt_view(distro),
            first_supported(m, cv, os@, dv) == first_supported(m, cv.skip(i as int), os@, dv),
            saw_unsupported == exists|j: int| 0 <= j < i && view_get(m, #[trigger] cv[j]) is Some,
        decreases cands.len() - i,
    {
        let ghost rest = cv.skip(i as int);
        assert(rest[0] == cands@[i as int]@);
        assert(rest.drop_first() =~= cv.skip(i + 1));
        match find_key(&entry.platforms, cands[i].as_str()) {
            Some(k) => {
                proof {
                    lemma_view_get_index(entry.platforms@, cands@[i as int]@, k as int);
                }
                let cmd = &entry.platforms[k].1;
                let ok = cmd.supports_os(os) || match distro {
                    Some(d) => cmd.supports_os(d),
                    None => false,
                };
                if ok {
                    proof {
                        let c = command_view(*cmd);
                        assert(view_get(m, rest[0]) == Some(c));
                        assert(supported_here(c, os@, dv));
                        assert(first_supported(m, rest, os@, dv) == Some(c.0));
                        assert(first_supported(m, cv, os@, dv) == Some(c.0));
                        assert(resolve_spec(*entry, pkg_mgr@, dv, os@).0 == Some(c.0));
                        assert(resolve_spec(*entry, pkg_mgr@, dv, os@).1 is None);
                    }
                    return (Some(cmd.command.clone()), None);
                }
                saw_unsupported = true;
            },
            None => {
                proof {
                    lemma_view_get_absent(entry.platforms@, cands@[i as int]@);
                }
            },
        }
        i += 1;
    }
    assert(cv.skip(i as int) =~= Seq::<Seq<char>>::empty());
    if chars_eq(chars_of(entry.kind.as_str()).as_slice(), chars_of("font").as_slice()) {
        if chars_of(entry.source_url.as_str()).len() == 0 {
            let mut e = String::from_str("font ");
            e.append(entry.name.as_str());
            e.append(" missing source_url");
            return (None, Some(e));
        }
        return (None, None);
    }
    if saw_unsupported {
        let mut e = entry.name.clone();
        e.append(" is not supported for ");
        e.append(pkg_mgr);
        e.append(" on ");
        e.append(os);
        (None, Some(e))
    } else {
        let mut e = String::from_str("no install command for ");
        e.append(pkg_mgr);
        (None, Some(e))
    }
}

/// The install command of an entry on this machine, if any.
pub fn command_for_current_platform(entry: &ToolEntry, pkg_mgr: &str, distro: Option<&str>, os: &str) -> (r: Option<String>)
    ensures
        crate::text::opt_string_view(r) == resolve_spec(*entry, pkg_mgr@, crate::text::opt_view(distro), os@).0,
{
    resolve_command(entry, pkg_mgr, distro, os).0
}

/// Resolves a tool into an install spec: its entry, and its command or the
/// reason there is none; an error when the tool cannot be resolved.
pub fn resolve_install(db: &ToolDb, name: &str, pkg_mgr: &str, distro: Option<&str>, os: &str) -> (r: Result<InstallSpec, String>)
    ensures
        r is Ok <==> (!all_ws(name@) && expand_fold(
            *db,
            name@,
            assoc_get(db.tools@, name@),
            platform_names(*db, assoc_get(db.tools@, name@)),
        ) is Some),
        match r {
            Ok(spec) => find_spec_ok(*db, name@, spec.entry) && spec.pkg_mgr@ == pkg_mgr@
                && crate::text::opt_string_view(spec.command) == resolve_spec(spec.entry, pkg_mgr@, crate::text::opt_view(distro), os@).0
                && crate::text::opt_string_view(spec.error) == resolve_spec(spec.entry, pkg_mgr@, crate::text::opt_view(distro), os@).1,
            Err(e) => e@ == "cannot resolve tool '"@ + name@ + "'"@,
        },
{
    match find(db, name) {
        Some(entry) => {
            let (command, error) = resolve_command(&entry, pkg_mgr, distro, os);
            Ok(InstallSpec { entry, pkg_mgr: String::from_str(pkg_mgr), command, error })
        },
        None => {
            let mut e = String::from_str("cannot resolve tool '");
            e.append(name);
            e.append("'");
            Err(e)
        },
    }
}

/// What a presence check found on the machine.
#[derive(Debug, Clone, Copy)]
pub struct PresenceFacts {
    /// The entry's binary is on `PATH`.
    pub binary_available: bool,
    /// `fc-list` is on `PATH`.
    pub fc_list_available: bool,
    /// fontconfig reports the entry's font family.
    pub family_reported: bool,
    /// A font directory holds a file matching the entry's font token.
    pub font_dir_has_token: bool,
    /// The macOS app or cask directory of the command's cask exists.
    pub cask_installed: bool,
}

/// The presence decision: fonts by fontconfig then by font files; macOS
/// casks by their app or cask directory; other tools by their binary.
pub open spec fn presence_spec(e: ToolEntry, install_command: Option<Seq<char>>, os: Seq<char>, f: PresenceFacts) -> InstallPresence {
    if is_font_kind(e.kind@) {
        if !all_ws(e.font_family@) && f.fc_list_available && f.family_reported {
            InstallPresence::Present
        } else if font_token_spec(e.name@, e.font_family@).len() == 0 {
            InstallPresence::Unknown
        } else if f.font_dir_has_token {
            InstallPresence::Present
        } else {
            InstallPresence::Missing
        }
    } else if os == "macos"@ && (install_command matches Some(c) && cask_spec(c) is Some) {
        if f.cask_installed {
            InstallPresence::Present
        } else {
            InstallPresence::Missing
        }
    } else if all_ws(e.binary@) {
        InstallPresence::Unknown
    } else if f.binary_available {
        InstallPresence::Present
    } else {
        InstallPresence::Missing
    }
}

/// Decides whether a tool is installed from what the machine reports.
pub fn detect_presence_with_probe(entry: &ToolEntry, install_command: Option<&str>, os: &str, facts: &PresenceFacts) -> (r: InstallPresence)
    ensures
        r == presence_spec(*entry, crate::text::opt_view(install_command), os@, *facts),
{
    if chars_eq(chars_of(entry.kind.as_str()).as_slice(), chars_of("font").as_slice()) {
        if !is_blank(entry.font_family.as_str()) && facts.fc_list_available && facts.family_reported {
            return InstallPresence::Present;
        }
        let token = font_match_token(entry);
        if chars_of(token.as_str()).len() == 0 {
            return InstallPresence::Unknown;
        }
        return if facts.font_dir_has_token {
            InstallPresence::Present
        } else {
            InstallPresence::Missing
        };
    }
    let is_mac = chars_eq(chars_of(os).as_slice(), chars_of("macos").as_slice());
    if is_mac {
        match install_command {
            Some(c) => match cask_package_from_command(c) {
                Some(_) => {
                    return if facts.cask_installed {
                        InstallPresence::Present
                    } else {
                        InstallPresence::Missing
                    };
                },
                None => {},
            },
            None => {},
        }
    }
    if is_blank(entry.binary.as_str()) {
        InstallPresence::Unknown
    } else if facts.binary_available {
        InstallPresence::Present
    } else {
        InstallPresence::Missing
    }
}

} // verus!
