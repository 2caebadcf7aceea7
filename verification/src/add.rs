//! Adding a dependency or a config file entry to the manifests: the checks
//! on each answer, the choice of installer, and the TOML text appended.

use vstd::prelude::*;
use crate::agent::{comma_items, comma_list, split_on};
use crate::text::{
    chars_of, contains, contains_char, contains_seq, contains_str, has_prefix, is_ws, join_with,
    lowercase, starts_with, str_eq, str_views, string_of, to_lowercase, trim, trim_chars, views,
    words, words_of,
};

verus! {

/// How a dependency is installed.
#[derive(Clone, Copy, Debug, PartialEq, Eq, Structural)]
pub enum Installer {
    System,
    Brew,
    Cask,
    Apt,
    RepoPackage,
    Ppa,
    OfficialScript,
    DownloadBinary,
}

/// The manifest name of an installer.
pub open spec fn installer_key_spec(i: Installer) -> Seq<char> {
    match i {
        Installer::System => "system"@,
        Installer::Brew => "brew"@,
        Installer::Cask => "cask"@,
        Installer::Apt => "apt"@,
        Installer::RepoPackage => "repo_package"@,
        Installer::Ppa => "ppa"@,
        Installer::OfficialScript => "official_script"@,
        Installer::DownloadBinary => "download_binary"@,
    }
}

/// The manifest name of an installer.
pub fn installer_key(i: Installer) -> (r: &'static str)
    ensures
        r@ == installer_key_spec(i),
{
    match i {
        Installer::System => "system",
        Installer::Brew => "brew",
        Installer::Cask => "cask",
        Installer::Apt => "apt",
        Installer::RepoPackage => "repo_package",
        Installer::Ppa => "ppa",
        Installer::OfficialScript => "official_script",
        Installer::DownloadBinary => "download_binary",
    }
}

/// The installer an answer picks: its number in the menu or its name,
/// surrounding whitespace ignored.
pub open spec fn installer_choice(input: Seq<char>) -> Option<Installer> {
    let t = trim(input);
    if t == "1"@ || t == "system"@ {
        Some(Installer::System)
    } else if t == "2"@ || t == "brew"@ {
        Some(Installer::Brew)
    } else if t == "3"@ || t == "cask"@ {
        Some(Installer::Cask)
    } else if t == "4"@ || t == "apt"@ {
        Some(Installer::Apt)
    } else if t == "5"@ || t == "repo_package"@ {
        Some(Installer::RepoPackage)
    } else if t == "6"@ || t == "ppa"@ {
        Some(Installer::Ppa)
    } else if t == "7"@ || t == "official_script"@ {
        Some(Installer::OfficialScript)
    } else if t == "8"@ || t == "download_binary"@ {
        Some(Installer::DownloadBinary)
    } else {
        None
    }
}

fn is(v: &Vec<char>, s: &str) -> (r: bool)
    ensures
        r == (v@ == s@),
{
    crate::text::chars_eq(v.as_slice(), chars_of(s).as_slice())
}

/// The installer an answer picks, if any.
pub fn parse_installer_choice(input: &str) -> (r: Option<Installer>)
    ensures
        r == installer_choice(input@),
{
    let t = trim_chars(chars_of(input).as_slice());
    if is(&t, "1") || is(&t, "system") {
        Some(Installer::System)
    } else if is(&t, "2") || is(&t, "brew") {
        Some(Installer::Brew)
    } else if is(&t, "3") || is(&t, "cask") {
        Some(Installer::Cask)
    } else if is(&t, "4") || is(&t, "apt") {
        Some(Installer::Apt)
    } else if is(&t, "5") || is(&t, "repo_package") {
        Some(Installer::RepoPackage)
    } else if is(&t, "6") || is(&t, "ppa") {
        Some(Installer::Ppa)
    } else if is(&t, "7") || is(&t, "official_script") {
        Some(Installer::OfficialScript)
    } else if is(&t, "8") || is(&t, "download_binary") {
        Some(Installer::DownloadBinary)
    } else {
        None
    }
}

/// How many times a question is asked before giving up.
pub const MAX_ATTEMPTS: u32 = 3;

/// What to do after checking one answer to a question that must be
/// answered validly.
#[derive(Debug)]
pub enum AttemptOutcome {
    /// The answer is kept.
    Accept,
    /// The error is shown (as `error: ...`) and the question asked again.
    Retry(String),
    /// The question is given up, failing with this message.
    GiveUp(String),
}

/// The outcome of the `attempt`-th answer (counting from 1), `error` being
/// what its check reported: a valid answer is kept; an invalid one is asked
/// again until the third, which fails with the error.
pub fn attempt_outcome(attempt: u32, error: Option<String>) -> (r: AttemptOutcome)
    requires
        1 <= attempt <= MAX_ATTEMPTS,
    ensures
        match error {
            None => r is Accept,
            Some(e) => if attempt == MAX_ATTEMPTS {
                r matches AttemptOutcome::GiveUp(m) && m@ == e@ + " (max attempts reached)"@
            } else {
                r matches AttemptOutcome::Retry(m) && m@ == e@
            },
        },
{
    match error {
        None => AttemptOutcome::Accept,
        Some(e) => {
            if attempt == MAX_ATTEMPTS {
                let mut m = e;
                m.append(" (max attempts reached)");
                AttemptOutcome::GiveUp(m)
            } else {
                AttemptOutcome::Retry(e)
            }
        },
    }
}

/// What to do after the `attempt`-th answer to the installer question:
/// `Ok(Some(..))` for a choice, `Ok(None)` to ask again after showing the
/// selection hint, an error after the third invalid answer.
pub fn installer_attempt(attempt: u32, input: &str) -> (r: Result<Option<Installer>, String>)
    requires
        1 <= attempt <= MAX_ATTEMPTS,
    ensures
        match installer_choice(input@) {
            Some(i) => r == Ok::<Option<Installer>, String>(Some(i)),
            None => if attempt == MAX_ATTEMPTS {
                r matches Err(m) && m@ == "invalid installer selection (max attempts reached)"@
            } else {
                r == Ok::<Option<Installer>, String>(None)
            },
        },
{
    match parse_installer_choice(input) {
        Some(i) => Ok(Some(i)),
        None => {
            if attempt == MAX_ATTEMPTS {
                Err(String::from_str("invalid installer selection (max attempts reached)"))
            } else {
                Ok(None)
            }
        },
    }
}

/// An answer, trimmed, or the default when it is blank.
pub open spec fn answer_or_default_spec(line: Seq<char>, default: Seq<char>) -> Seq<char> {
    if trim(line).len() == 0 {
        default
    } else {
        trim(line)
    }
}

/// An answer to a question with a default.
pub fn answer_or_default(line: &str, default: &str) -> (r: String)
    ensures
        r@ == answer_or_default_spec(line@, default@),
{
    let t = trim_chars(chars_of(line).as_slice());
    if t.len() == 0 {
        String::from_str(default)
    } else {
        string_of(t.as_slice())
    }
}

/// A yes/no answer (already defaulted): with a default of yes, anything not
/// starting with `n` in lowercase is yes; with a default of no, only what
/// starts with `y` is.
pub open spec fn yes_no_spec(answer: Seq<char>, default_yes: bool) -> bool {
    let l = lowercase(answer);
    if default_yes {
        !(l.len() > 0 && l[0] == 'n')
    } else {
        l.len() > 0 && l[0] == 'y'
    }
}

/// Reads a yes/no answer.
pub fn yes_no(answer: &str, default_yes: bool) -> (r: bool)
    ensures
        r == yes_no_spec(answer@, default_yes),
{
    let l = chars_of(to_lowercase(answer).as_str());
    if default_yes {
        !(l.len() > 0 && l[0] == 'n')
    } else {
        l.len() > 0 && l[0] == 'y'
    }
}

/// The default shown for a yes/no question.
pub fn yes_no_hint(default_yes: bool) -> (r: &'static str)
    ensures
        r@ == if default_yes {
            "Y/n"@
        } else {
            "y/N"@
        },
{
    if default_yes {
        "Y/n"
    } else {
        "y/N"
    }
}

/// The checks on a single answer.
#[derive(Clone, Copy, Debug, PartialEq, Eq, Structural)]
pub enum Check {
    NonEmpty,
    HttpsUrl,
    InstallPath,
    ArchiveKind,
}

/// What a check reports of an answer.
pub open spec fn check_spec(c: Check, s: Seq<char>) -> Option<Seq<char>> {
    match c {
        Check::NonEmpty => if s.len() == 0 {
            Some("must not be empty"@)
        } else {
            None
        },
        Check::HttpsUrl => if has_prefix(s, "https://"@) {
            None
        } else {
            Some("must start with https://"@)
        },
        Check::InstallPath => if has_prefix(s, "~/.local"@) {
            None
        } else {
            Some("must start with ~/.local"@)
        },
        Check::ArchiveKind => if s == "raw"@ || s == "tar.gz"@ || s == "tar.xz"@ || s == "zip"@ {
            None
        } else {
            Some("must be one of: raw, tar.gz, tar.xz, zip"@)
        },
    }
}

/// Checks an answer.
pub fn check_answer(c: Check, s: &str) -> (r: Result<(), String>)
    ensures
        match check_spec(c, s@) {
            None => r is Ok,
            Some(m) => r matches Err(e) && e@ == m,
        },
{
    let v = chars_of(s);
    match c {
        Check::NonEmpty => {
            if v.len() == 0 {
                Err(String::from_str("must not be empty"))
            } else {
                Ok(())
            }
        },
        Check::HttpsUrl => {
            if starts_with(v.as_slice(), chars_of("https://").as_slice()) {
                Ok(())
            } else {
                Err(String::from_str("must start with https://"))
            }
        },
        Check::InstallPath => {
            if starts_with(v.as_slice(), chars_of("~/.local").as_slice()) {
                Ok(())
            } else {
                Err(String::from_str("must start with ~/.local"))
            }
        },
        Check::ArchiveKind => {
            if is(&v, "raw") || is(&v, "tar.gz") || is(&v, "tar.xz") || is(&v, "zip") {
                Ok(())
            } else {
                Err(String::from_str("must be one of: raw, tar.gz, tar.xz, zip"))
            }
        },
    }
}

/// A name may not contain whitespace, brackets or dots.
pub open spec fn bad_name_char(c: char) -> bool {
    is_ws(c) || c == '[' || c == ']' || c == '.'
}

/// What is wrong with a new dependency name, if anything.
pub open spec fn dep_name_error(s: Seq<char>, existing: Seq<Seq<char>>) -> Option<Seq<char>> {
    if s.len() == 0 {
        Some("name must not be empty"@)
    } else if exists|i: int| 0 <= i < s.len() && bad_name_char(#[trigger] s[i]) {
        Some("name must not contain whitespace, [, ], or ."@)
    } else if existing.contains(s) {
        Some("dependency '"@ + s + "' already exists in deps.toml"@)
    } else {
        None
    }
}

/// Checks a new dependency name against the names already in the manifest.
pub fn check_dep_name(s: &str, existing: &Vec<String>) -> (r: Result<(), String>)
    ensures
        match dep_name_error(s@, str_views(existing@)) {
            None => r is Ok,
            Some(m) => r matches Err(e) && e@ == m,
        },
{
    let v = chars_of(s);
    if v.len() == 0 {
        return Err(String::from_str("name must not be empty"));
    }
    let mut i: usize = 0;
    while i < v.len()
        invariant
            i <= v@.len(),
            v@ == s@,
            forall|k: int| 0 <= k < i ==> !bad_name_char(#[trigger] s@[k]),
        decreases v@.len() - i,
    {
        let c = v[i];
        if crate::text::is_whitespace(c) || c == '[' || c == ']' || c == '.' {
            assert(bad_name_char(s@[i as int]));
            return Err(String::from_str("name must not contain whitespace, [, ], or ."));
        }
        i += 1;
    }
    if contains_str(existing, s) {
        let mut e = String::from_str("dependency '");
        e.append(s);
        e.append("' already exists in deps.toml");
        return Err(e);
    }
    Ok(())
}

/// The first dependency other than `name` whose command is `command`.
pub open spec fn command_clash(command: Seq<char>, name: Seq<char>, existing: Seq<(String, String)>, i: int) -> bool {
    &&& 0 <= i < existing.len()
    &&& existing[i].1@ == command && existing[i].0@ != name
    &&& forall|j: int| 0 <= j < i ==> !(#[trigger] existing[j].1@ == command && existing[j].0@ != name)
}

/// Checks that no other dependency (name, command), in manifest order, uses
/// the same command.
pub fn check_command_unused(command: &str, name: &str, existing: &Vec<(String, String)>) -> (r:
    Result<(), String>)
    ensures
        match r {
            Ok(()) => forall|j: int|
                0 <= j < existing@.len() ==> !(#[trigger] existing@[j].1@ == command@ && existing@[j].0@
                    != name@),
            Err(e) => exists|i: int|
                command_clash(command@, name@, existing@, i) && e@ == "command '"@ + command@
                    + "' is already used by dependency '"@ + existing@[i].0@ + "'"@,
        },
{
    let mut i: usize = 0;
    while i < existing.len()
        invariant
            i <= existing@.len(),
            forall|j: int|
                0 <= j < i ==> !(#[trigger] existing@[j].1@ == command@ && existing@[j].0@ != name@),
        decreases existing@.len() - i,
    {
        if str_eq(existing[i].1.as_str(), command) && !str_eq(existing[i].0.as_str(), name) {
            let mut e = String::from_str("command '");
            e.append(command);
            e.append("' is already used by dependency '");
            e.append(existing[i].0.as_str());
            e.append("'");
            assert(command_clash(command@, name@, existing@, i as int));
            return Err(e);
        }
        i += 1;
    }
    Ok(())
}

/// The optional project URL: blank is none; anything else must be https.
pub fn check_source_url(source: &str) -> (r: Result<Option<String>, String>)
    ensures
        source@.len() == 0 ==> r == Ok::<Option<String>, String>(None),
        source@.len() > 0 && has_prefix(source@, "https://"@) ==> (r matches Ok(Some(u)) && u@
            == source@),
        source@.len() > 0 && !has_prefix(source@, "https://"@) ==> (r matches Err(e) && e@
            == "source URL must start with https://"@),
{
    let v = chars_of(source);
    if v.len() == 0 {
        Ok(None)
    } else if !starts_with(v.as_slice(), chars_of("https://").as_slice()) {
        Err(String::from_str("source URL must start with https://"))
    } else {
        Ok(Some(String::from_str(source)))
    }
}

/// What is wrong with a config entry's source path, if anything.
pub open spec fn config_source_error(s: Seq<char>, existing: Seq<Seq<char>>) -> Option<Seq<char>> {
    if s.len() == 0 {
        Some("source must not be empty"@)
    } else if s[0] == '/' || s[0] == '~' || s.contains('$') || contains_seq(s, ".."@) {
        Some("source must be a relative path (no /, ~, $, ..)"@)
    } else if existing.contains(s) {
        Some("source '"@ + s + "' already in dotfiles.toml"@)
    } else {
        None
    }
}

/// Checks a config entry's source: relative to the repository and new.
pub fn check_config_source(s: &str, existing_sources: &Vec<String>) -> (r: Result<(), String>)
    ensures
        match config_source_error(s@, str_views(existing_sources@)) {
            None => r is Ok,
            Some(m) => r matches Err(e) && e@ == m,
        },
{
    let v = chars_of(s);
    if v.len() == 0 {
        return Err(String::from_str("source must not be empty"));
    }
    let dots = chars_of("..");
    if v[0] == '/' || v[0] == '~' || contains_char(v.as_slice(), '$') || contains(
        v.as_slice(),
        dots.as_slice(),
    ) {
        return Err(String::from_str("source must be a relative path (no /, ~, $, ..)"));
    }
    if contains_str(existing_sources, s) {
        let mut e = String::from_str("source '");
        e.append(s);
        e.append("' already in dotfiles.toml");
        return Err(e);
    }
    Ok(())
}

/// What is wrong with a config entry's target path, if anything; the
/// targets are those of the enabled entries.
pub open spec fn config_target_error(s: Seq<char>, active_targets: Seq<Seq<char>>) -> Option<
    Seq<char>,
> {
    if s.len() == 0 {
        Some("target must not be empty"@)
    } else if !(s[0] == '~' || s[0] == '/') {
        Some("target must start with ~ or /"@)
    } else if active_targets.contains(s) {
        Some("target '"@ + s + "' already used by an active entry"@)
    } else {
        None
    }
}

/// Checks a config entry's target: home-relative or absolute, and not taken
/// by an enabled entry.
pub fn check_config_target(s: &str, active_targets: &Vec<String>) -> (r: Result<(), String>)
    ensures
        match config_target_error(s@, str_views(active_targets@)) {
            None => r is Ok,
            Some(m) => r matches Err(e) && e@ == m,
        },
{
    let v = chars_of(s);
    if v.len() == 0 {
        return Err(String::from_str("target must not be empty"));
    }
    if !(v[0] == '~' || v[0] == '/') {
        return Err(String::from_str("target must start with ~ or /"));
    }
    if contains_str(active_targets, s) {
        let mut e = String::from_str("target '");
        e.append(s);
        e.append("' already used by an active entry");
        return Err(e);
    }
    Ok(())
}

/// A file or a directory.
#[derive(Clone, Copy, Debug, PartialEq, Eq, Structural)]
pub enum FileKind {
    File,
    Dir,
}

/// The kind an answer names, in any case.
pub fn parse_kind(input: &str) -> (r: Result<FileKind, String>)
    ensures
        lowercase(input@) == "file"@ ==> r == Ok::<FileKind, String>(FileKind::File),
        lowercase(input@) == "dir"@ ==> r == Ok::<FileKind, String>(FileKind::Dir),
        lowercase(input@) != "file"@ && lowercase(input@) != "dir"@ ==> (r matches Err(e) && e@
            == "invalid kind: "@ + lowercase(input@) + " (must be file or dir)"@),
{
    let l = to_lowercase(input);
    proof {
        reveal_strlit("file");
        reveal_strlit("dir");
        assert("file"@ != "dir"@) by {
            assert("file"@.len() != "dir"@.len());
        }
    }
    if str_eq(l.as_str(), "file") {
        Ok(FileKind::File)
    } else if str_eq(l.as_str(), "dir") {
        Ok(FileKind::Dir)
    } else {
        let mut e = String::from_str("invalid kind: ");
        e.append(l.as_str());
        e.append(" (must be file or dir)");
        Err(e)
    }
}

/// The first item that is neither `mac` nor `linux`.
pub open spec fn first_unknown_platform(parts: Seq<Seq<char>>) -> Option<Seq<char>>
    decreases parts.len(),
{
    if parts.len() == 0 {
        None
    } else if parts[0] != "mac"@ && parts[0] != "linux"@ {
        Some(parts[0])
    } else {
        first_unknown_platform(parts.drop_first())
    }
}

/// The platforms an answer names: none for `all` (meaning every platform),
/// else its comma-separated items, each of which must be `mac` or `linux`.
pub open spec fn platforms_spec(input: Seq<char>) -> Result<Seq<Seq<char>>, Seq<char>> {
    if input == "all"@ {
        Ok(Seq::empty())
    } else {
        let parts = comma_items(split_on(input, ','));
        match first_unknown_platform(parts) {
            Some(p) => Err("invalid platform: "@ + p + " (must be mac or linux)"@),
            None => Ok(parts),
        }
    }
}

/// Reads the platforms answer.
pub fn parse_platforms(input: &str) -> (r: Result<Vec<String>, String>)
    ensures
        match r {
            Ok(v) => platforms_spec(input@) == Ok::<Seq<Seq<char>>, Seq<char>>(str_views(v@)),
            Err(e) => platforms_spec(input@) == Err::<Seq<Seq<char>>, Seq<char>>(e@),
        },
{
    if str_eq(input, "all") {
        let v: Vec<String> = Vec::new();
        assert(str_views(v@) =~= Seq::<Seq<char>>::empty());
        return Ok(v);
    }
    let parts = comma_list(chars_of(input).as_slice());
    let ghost pv = str_views(parts@);
    assert(pv == comma_items(split_on(input@, ',')));
    let mut i: usize = 0;
    assert(pv.skip(0) =~= pv);
    while i < parts.len()
        invariant
            i <= parts@.len(),
            pv == str_views(parts@),
            pv == comma_items(split_on(input@, ',')),
            input@ != "all"@,
            first_unknown_platform(pv) == first_unknown_platform(pv.skip(i as int)),
        decreases parts@.len() - i,
    {
        assert(pv.skip(i as int)[0] == pv[i as int]);
        if !str_eq(parts[i].as_str(), "mac") && !str_eq(parts[i].as_str(), "linux") {
            let mut e = String::from_str("invalid platform: ");
            e.append(parts[i].as_str());
            e.append(" (must be mac or linux)");
            assert(pv[i as int] == parts@[i as int]@);
            assert(first_unknown_platform(pv.skip(i as int)) == Some(pv[i as int]));
            assert(e@ == "invalid platform: "@ + pv[i as int] + " (must be mac or linux)"@);
            return Err(e);
        }
        assert(pv.skip(i as int).drop_first() =~= pv.skip(i + 1));
        i += 1;
    }
    assert(pv.skip(i as int) =~= Seq::<Seq<char>>::empty());
    Ok(parts)
}

/// The manifest text with a new entry appended: the entry alone when the
/// manifest is blank, else after a blank line.
pub open spec fn merge_manifest_spec(existing: Seq<char>, snippet: Seq<char>) -> Seq<char> {
    if trim(existing).len() == 0 {
        snippet
    } else {
        existing + "\n"@ + snippet
    }
}

/// Appends an entry to a manifest's text.
pub fn merge_manifest(existing: &str, snippet: &str) -> (r: String)
    ensures
        r@ == merge_manifest_spec(existing@, snippet@),
{
    if trim_chars(chars_of(existing).as_slice()).len() == 0 {
        String::from_str(snippet)
    } else {
        let mut m = String::from_str(existing);
        m.append("\n");
        m.append(snippet);
        m
    }
}

/// The message for a manifest that no longer passes the checks: each error
/// on a line of its own.
pub fn validation_failure(errors: &Vec<String>) -> (r: String)
    ensures
        r@ == "validation failed:\nerror: "@ + join_with(str_views(errors@), "\nerror: "@),
{
    let mut parts: Vec<Vec<char>> = Vec::new();
    let mut i: usize = 0;
    while i < errors.len()
        invariant
            i <= errors@.len(),
            views(parts@) == str_views(errors@.take(i as int)),
            parts@.len() == i,
        decreases errors@.len() - i,
    {
        let ghost before = parts@;
        parts.push(chars_of(errors[i].as_str()));
        assert forall|j: int| 0 <= j < i + 1 implies #[trigger] views(parts@)[j] == str_views(
            errors@.take(i + 1),
        )[j] by {
            if j < i {
                assert(parts@[j] == before[j]);
                assert(views(before)[j] == str_views(errors@.take(i as int))[j]);
            }
        }
        assert(views(parts@) =~= str_views(errors@.take(i + 1)));
        i += 1;
    }
    assert(errors@.take(errors@.len() as int) =~= errors@);
    let joined = crate::text::join(&parts, chars_of("\nerror: ").as_slice());
    let mut m = String::from_str("validation failed:\nerror: ");
    m.append(string_of(joined.as_slice()).as_str());
    m
}

/// A parameter value in a dependency's table: a string or a list of strings.
#[derive(Debug)]
pub enum ParamValue {
    Text(String),
    List(Vec<String>),
}

/// A TOML basic string holding `s` verbatim.
pub open spec fn quoted(s: Seq<char>) -> Seq<char> {
    "\""@ + s + "\""@
}

/// Each text quoted.
pub open spec fn quoted_all(items: Seq<Seq<char>>) -> Seq<Seq<char>> {
    Seq::new(items.len(), |i: int| quoted(items[i]))
}

/// The TOML text of a parameter value.
pub open spec fn value_text(v: ParamValue) -> Seq<char> {
    match v {
        ParamValue::Text(s) => quoted(s@),
        ParamValue::List(items) => "["@ + join_with(quoted_all(str_views(items@)), ", "@) + "]"@,
    }
}

fn quote(s: &str) -> (r: String)
    ensures
        r@ == quoted(s@),
{
    let mut q = String::from_str("\"");
    q.append(s);
    q.append("\"");
    q
}

/// A list of texts, each quoted, joined by `, `.
fn quoted_list(items: &Vec<String>) -> (r: String)
    ensures
        r@ == join_with(quoted_all(str_views(items@)), ", "@),
{
    let mut parts: Vec<Vec<char>> = Vec::new();
    let mut i: usize = 0;
    while i < items.len()
        invariant
            i <= items@.len(),
            parts@.len() == i,
            views(parts@) == quoted_all(str_views(items@.take(i as int))),
        decreases items@.len() - i,
    {
        let ghost before = parts@;
        let q = quote(items[i].as_str());
        parts.push(chars_of(q.as_str()));
        assert forall|j: int| 0 <= j < i + 1 implies #[trigger] views(parts@)[j] == quoted_all(
            str_views(items@.take(i + 1)),
        )[j] by {
            if j < i {
                assert(parts@[j] == before[j]);
                assert(views(before)[j] == quoted_all(str_views(items@.take(i as int)))[j]);
            }
        }
        assert(views(parts@) =~= quoted_all(str_views(items@.take(i + 1))));
        i += 1;
    }
    assert(items@.take(items@.len() as int) =~= items@);
    let joined = crate::text::join(&parts, chars_of(", ").as_slice());
    string_of(joined.as_slice())
}

/// The TOML text of a parameter value.
pub fn toml_value_str(v: &ParamValue) -> (r: String)
    ensures
        r@ == value_text(*v),
{
    match v {
        ParamValue::Text(s) => quote(s.as_str()),
        ParamValue::List(items) => {
            let mut r = String::from_str("[");
            r.append(quoted_list(items).as_str());
            r.append("]");
            r
        },
    }
}

/// The trimmed comma-separated pieces of a text (empty ones kept).
pub open spec fn trimmed_pieces(s: Seq<char>) -> Seq<Seq<char>> {
    Seq::new(split_on(s, ',').len(), |i: int| trim(split_on(s, ',')[i]))
}

/// The value of a prompted parameter: a comma-separated answer becomes a
/// list of its trimmed pieces, any other answer a string.
pub fn param_value(answer: &str, list: bool) -> (r: ParamValue)
    ensures
        list ==> (r matches ParamValue::List(items) && str_views(items@) == trimmed_pieces(answer@)),
        !list ==> (r matches ParamValue::Text(t) && t@ == answer@),
{
    if !list {
        return ParamValue::Text(String::from_str(answer));
    }
    let pieces = crate::agent::split_char(chars_of(answer).as_slice(), ',');
    let ghost pv = views(pieces@);
    let mut items: Vec<String> = Vec::new();
    let mut i: usize = 0;
    while i < pieces.len()
        invariant
            i <= pieces@.len(),
            pv == views(pieces@),
            pv == split_on(answer@, ','),
            items@.len() == i,
            forall|j: int| 0 <= j < i ==> #[trigger] items@[j]@ == trim(pv[j]),
        decreases pieces@.len() - i,
    {
        let t = trim_chars(pieces[i].as_slice());
        items.push(string_of(t.as_slice()));
        i += 1;
    }
    assert(str_views(items@) =~= trimmed_pieces(answer@));
    ParamValue::List(items)
}

/// Extra script arguments: none when the answer is blank, else the list of
/// its whitespace-separated words.
pub fn script_args(answer: &str) -> (r: Option<ParamValue>)
    ensures
        answer@.len() == 0 ==> r is None,
        answer@.len() > 0 ==> (r matches Some(ParamValue::List(items)) && str_views(items@)
            == words_of(answer@)),
{
    if answer.unicode_len() == 0 {
        return None;
    }
    let ws = words(chars_of(answer).as_slice());
    let mut items: Vec<String> = Vec::new();
    let mut i: usize = 0;
    while i < ws.len()
        invariant
            i <= ws@.len(),
            views(ws@) == words_of(answer@),
            items@.len() == i,
            forall|j: int| 0 <= j < i ==> #[trigger] items@[j]@ == ws@[j]@,
        decreases ws@.len() - i,
    {
        items.push(string_of(ws[i].as_slice()));
        i += 1;
    }
    assert(str_views(items@) =~= words_of(answer@)) by {
        assert(forall|j: int| 0 <= j < ws@.len() ==> #[trigger] views(ws@)[j] == ws@[j]@);
    }
    Some(ParamValue::List(items))
}

/// One question asked for an installer's parameters: the key its answer is
/// stored under, the question, the check on the answer, and whether the
/// answer is a comma-separated list.
#[derive(Debug)]
pub struct ParamPrompt {
    pub key: &'static str,
    pub message: &'static str,
    pub check: Check,
    pub list: bool,
}

/// A prompt as plain values.
pub open spec fn prompt_view(p: ParamPrompt) -> (Seq<char>, Seq<char>, Check, bool) {
    (p.key@, p.message@, p.check, p.list)
}

/// The prompts as plain values.
pub open spec fn prompts_view(s: Seq<ParamPrompt>) -> Seq<(Seq<char>, Seq<char>, Check, bool)> {
    Seq::new(s.len(), |i: int| prompt_view(s[i]))
}

/// The questions every installer asks for its parameters, in order. (An
/// official script may also take extra arguments, and a downloaded binary
/// may also install a directory: those are asked after these.)
pub open spec fn param_prompts_spec(i: Installer) -> Seq<(Seq<char>, Seq<char>, Check, bool)> {
    match i {
        Installer::System | Installer::Apt => seq![],
        Installer::Brew | Installer::Cask => seq![("package"@, "Package name:"@, Check::NonEmpty, false)],
        Installer::RepoPackage => seq![
            ("package"@, "Package name:"@, Check::NonEmpty, false),
            ("repo_url"@, "Repository URL (https://...):"@, Check::HttpsUrl, false),
            ("repo_key_url"@, "Repository key URL (https://...):"@, Check::HttpsUrl, false),
            ("repo_channel"@, "Repository channel (e.g. stable):"@, Check::NonEmpty, false),
            (
                "repo_components"@,
                "Repository components (comma-separated, e.g. main):"@,
                Check::NonEmpty,
                true,
            ),
        ],
        Installer::Ppa => seq![
            ("ppa"@, "PPA name (e.g. ppa:fish-shell/release-4):"@, Check::NonEmpty, false),
            ("package"@, "Package name:"@, Check::NonEmpty, false),
        ],
        Installer::OfficialScript => seq![
            ("script_url"@, "Script URL (https://...):"@, Check::HttpsUrl, false),
            ("install_to"@, "Install path (under ~/.local):"@, Check::InstallPath, false),
        ],
        Installer::DownloadBinary => seq![
            ("url"@, "Download URL (https://...):"@, Check::HttpsUrl, false),
            ("sha256"@, "SHA256 hex digest:"@, Check::NonEmpty, false),
            (
                "archive_kind"@,
                "Archive kind (raw, tar.gz, tar.xz, zip):"@,
                Check::ArchiveKind,
                false,
            ),
            ("binary_path"@, "Binary path within archive:"@, Check::NonEmpty, false),
            ("install_to"@, "Install path (under ~/.local):"@, Check::InstallPath, false),
        ],
    }
}

fn ask(key: &'static str, message: &'static str, check: Check, list: bool) -> (r: ParamPrompt)
    ensures
        prompt_view(r) == (key@, message@, check, list),
{
    ParamPrompt { key, message, check, list }
}

/// The questions an installer asks for its parameters.
pub fn param_prompts(i: Installer) -> (r: Vec<ParamPrompt>)
    ensures
        prompts_view(r@) == param_prompts_spec(i),
{
    let mut r: Vec<ParamPrompt> = Vec::new();
    match i {
        Installer::System | Installer::Apt => {},
        Installer::Brew | Installer::Cask => {
            r.push(ask("package", "Package name:", Check::NonEmpty, false));
        },
        Installer::RepoPackage => {
            r.push(ask("package", "Package name:", Check::NonEmpty, false));
            r.push(ask("repo_url", "Repository URL (https://...):", Check::HttpsUrl, false));
            r.push(ask("repo_key_url", "Repository key URL (https://...):", Check::HttpsUrl, false));
            r.push(ask("repo_channel", "Repository channel (e.g. stable):", Check::NonEmpty, false));
            r.push(
                ask(
                    "repo_components",
                    "Repository components (comma-separated, e.g. main):",
                    Check::NonEmpty,
                    true,
                ),
            );
        },
        Installer::Ppa => {
            r.push(ask("ppa", "PPA name (e.g. ppa:fish-shell/release-4):", Check::NonEmpty, false));
            r.push(ask("package", "Package name:", Check::NonEmpty, false));
        },
        Installer::OfficialScript => {
            r.push(ask("script_url", "Script URL (https://...):", Check::HttpsUrl, false));
            r.push(ask("install_to", "Install path (under ~/.local):", Check::InstallPath, false));
        },
        Installer::DownloadBinary => {
            r.push(ask("url", "Download URL (https://...):", Check::HttpsUrl, false));
            r.push(ask("sha256", "SHA256 hex digest:", Check::NonEmpty, false));
            r.push(
                ask("archive_kind", "Archive kind (raw, tar.gz, tar.xz, zip):", Check::ArchiveKind, false),
            );
            r.push(ask("binary_path", "Binary path within archive:", Check::NonEmpty, false));
            r.push(ask("install_to", "Install path (under ~/.local):", Check::InstallPath, false));
        },
    }
    assert(prompts_view(r@) =~= param_prompts_spec(i));
    r
}

/// The questions for a downloaded binary's optional install directory,
/// asked when the user wants one.
pub fn install_dir_prompts() -> (r: Vec<ParamPrompt>)
    ensures
        prompts_view(r@) == seq![
            ("install_dir_from"@, "install_dir_from:"@, Check::NonEmpty, false),
            ("install_dir_to"@, "install_dir_to (under ~/.local):"@, Check::InstallPath, false),
        ],
{
    let mut r: Vec<ParamPrompt> = Vec::new();
    r.push(ask("install_dir_from", "install_dir_from:", Check::NonEmpty, false));
    r.push(ask("install_dir_to", "install_dir_to (under ~/.local):", Check::InstallPath, false));
    assert(prompts_view(r@) =~= seq![
        ("install_dir_from"@, "install_dir_from:"@, Check::NonEmpty, false),
        ("install_dir_to"@, "install_dir_to (under ~/.local):"@, Check::InstallPath, false),
    ]);
    r
}

/// The parameter lines of a table, one `key = value` per entry.
pub open spec fn param_lines(p: Seq<(String, ParamValue)>) -> Seq<char>
    decreases p.len(),
{
    if p.len() == 0 {
        Seq::empty()
    } else {
        param_lines(p.drop_last()) + p.last().0@ + " = "@ + value_text(p.last().1) + "\n"@
    }
}

/// The TOML entry for a new dependency: its command, then the table for the
/// current platform and architecture with installer, version and source, then
/// its parameters, if any.
pub open spec fn dep_toml_spec(
    name: Seq<char>,
    command: Seq<char>,
    installer: Installer,
    version: Seq<char>,
    source: Option<Seq<char>>,
    params: Seq<(String, ParamValue)>,
    platform: Seq<char>,
    arch: Seq<char>,
) -> Seq<char> {
    let table = "[deps."@ + name + "."@ + platform + "."@ + arch;
    "[deps."@ + name + "]\n"@ + "command = "@ + quoted(command) + "\n\n"@ + table + "]\n"@
        + "installer = "@ + quoted(installer_key_spec(installer)) + "\n"@ + "version = "@
        + quoted(version) + "\n"@ + (match source {
        Some(s) => "source = "@ + quoted(s) + "\n"@,
        None => Seq::empty(),
    }) + "\n"@ + (if params.len() > 0 {
        table + ".params]\n"@ + param_lines(params) + "\n"@
    } else {
        Seq::empty()
    })
}

fn append_quoted(out: &mut String, s: &str)
    ensures
        final(out)@ == old(out)@ + quoted(s@),
{
    out.append("\"");
    out.append(s);
    out.append("\"");
}

/// The TOML entry for a new dependency; `params` is its parameter table in
/// key order.
pub fn build_dep_toml(
    name: &str,
    command: &str,
    installer: Installer,
    version: &str,
    source: Option<&str>,
    params: &Vec<(String, ParamValue)>,
    platform: &str,
    arch: &str,
) -> (r: String)
    ensures
        r@ == dep_toml_spec(
            name@,
            command@,
            installer,
            version@,
            crate::text::opt_view(source),
            params@,
            platform@,
            arch@,
        ),
{
    let mut table = String::from_str("[deps.");
    table.append(name);
    table.append(".");
    table.append(platform);
    table.append(".");
    table.append(arch);
    let mut out = String::from_str("[deps.");
    out.append(name);
    out.append("]\n");
    out.append("command = ");
    append_quoted(&mut out, command);
    out.append("\n\n");
    out.append(table.as_str());
    out.append("]\n");
    out.append("installer = ");
    append_quoted(&mut out, installer_key(installer));
    out.append("\n");
    out.append("version = ");
    append_quoted(&mut out, version);
    out.append("\n");
    match source {
        Some(src) => {
            out.append("source = ");
            append_quoted(&mut out, src);
            out.append("\n");
        },
        None => {},
    }
    out.append("\n");
    if params.len() > 0 {
        out.append(table.as_str());
        out.append(".params]\n");
        let ghost start = out@;
        let mut i: usize = 0;
        while i < params.len()
            invariant
                i <= params@.len(),
                out@ == start + param_lines(params@.take(i as int)),
            decreases params@.len() - i,
        {
            out.append(params[i].0.as_str());
            out.append(" = ");
            out.append(toml_value_str(&params[i].1).as_str());
            out.append("\n");
            proof {
                assert(params@.take(i + 1).drop_last() =~= params@.take(i as int));
            }
            i += 1;
        }
        assert(params@.take(params@.len() as int) =~= params@);
        out.append("\n");
    }
    out
}

/// The TOML entry for a new config file: source, target and kind, then the
/// platforms when limited, `enabled = false` when disabled, and notes.
pub open spec fn config_toml_spec(
    source: Seq<char>,
    target: Seq<char>,
    kind: FileKind,
    platforms: Seq<Seq<char>>,
    enabled: bool,
    notes: Option<Seq<char>>,
) -> Seq<char> {
    "[[files]]\n"@ + "source = "@ + quoted(source) + "\n"@ + "target = "@ + quoted(target) + "\n"@
        + "kind = "@ + quoted(
        match kind {
            FileKind::File => "file"@,
            FileKind::Dir => "dir"@,
        },
    ) + "\n"@ + (if platforms.len() > 0 {
        "platforms = ["@ + join_with(quoted_all(platforms), ", "@) + "]\n"@
    } else {
        Seq::empty()
    }) + (if !enabled {
        "enabled = false\n"@
    } else {
        Seq::empty()
    }) + (match notes {
        Some(n) => "notes = "@ + quoted(n) + "\n"@,
        None => Seq::empty(),
    }) + "\n"@
}

/// The TOML entry for a new config file.
pub fn build_config_toml(
    source: &str,
    target: &str,
    kind: FileKind,
    platforms: &Vec<String>,
    enabled: bool,
    notes: Option<&str>,
) -> (r: String)
    ensures
        r@ == config_toml_spec(
            source@,
            target@,
            kind,
            str_views(platforms@),
            enabled,
            crate::text::opt_view(notes),
        ),
{
    let mut out = String::from_str("[[files]]\n");
    out.append("source = ");
    append_quoted(&mut out, source);
    out.append("\n");
    out.append("target = ");
    append_quoted(&mut out, target);
    out.append("\n");
    out.append("kind = ");
    let kind_str = match kind {
        FileKind::File => "file",
        FileKind::Dir => "dir",
    };
    append_quoted(&mut out, kind_str);
    out.append("\n");
    if platforms.len() > 0 {
        out.append("platforms = [");
        out.append(quoted_list(platforms).as_str());
        out.append("]\n");
    }
    if !enabled {
        out.append("enabled = false\n");
    }
    match notes {
        Some(n) => {
            out.append("notes = ");
            append_quoted(&mut out, n);
            out.append("\n");
        },
        None => {},
    }
    out.append("\n");
    out
}

} // verus!
