//! Reading a tool's version out of what its version command printed.

use vstd::prelude::*;
use crate::text::{opt_string_view, str_eq, str_views};

verus! {

#[verifier::external_type_specification]
#[verifier::external_body]
pub struct ExRegex(regex::Regex);

/// What `regex::Regex::new` makes of `pattern`: success, or the message of
/// the error it reports.
pub uninterp spec fn regex_compile(pattern: Seq<char>) -> Result<(), Seq<char>>;

/// The text of capture group 1 in the first match of `pattern` in `text`,
/// when there is a match and the group took part in it.
pub uninterp spec fn regex_group1(pattern: Seq<char>, text: Seq<char>) -> Option<Seq<char>>;

/// A compiled version pattern; its view is the pattern's text.
pub struct VersionPattern {
    source: String,
    re: regex::Regex,
}

impl View for VersionPattern {
    type V = Seq<char>;

    closed spec fn view(&self) -> Seq<char> {
        self.source@
    }
}

/// `regex::Regex::new`: the compiled pattern, or the message of the error
/// the crate reports. Whether it compiles, and the message, are named, not
/// stated.
#[verifier::external_body]
fn compile_pattern(pattern: &str) -> (r: Result<VersionPattern, String>)
    ensures
        match r {
            Ok(p) => regex_compile(pattern@) is Ok && p@ == pattern@,
            Err(e) => regex_compile(pattern@) == Err::<(), Seq<char>>(e@),
        },
{
    match regex::Regex::new(pattern) {
        Ok(re) => Ok(VersionPattern { source: pattern.to_string(), re }),
        Err(e) => Err(e.to_string()),
    }
}

/// `regex::Regex::captures`, then group 1 of the captures: the text that
/// group matched in the first match, if any. Which text that is, is named,
/// not stated.
#[verifier::external_body]
fn capture_group1(p: &VersionPattern, text: &str) -> (r: Option<String>)
    ensures
        opt_string_view(r) == regex_group1(p@, text@),
{
    p.re.captures(text).and_then(|c| c.get(1)).map(|m| m.as_str().to_string())
}

/// The version a tool printed: what group 1 of the version pattern
/// captures; an error when the pattern is invalid or does not match.
pub fn extract_version(text: &str, pattern: &str) -> (r: Result<String, String>)
    ensures
        match regex_compile(pattern@) {
            Err(m) => r matches Err(e) && e@ == "invalid version regex: "@ + m,
            Ok(_) => match regex_group1(pattern@, text@) {
                Some(v) => r matches Ok(s) && s@ == v,
                None => r matches Err(e) && e@ == "version output did not match regex"@,
            },
        },
{
    let p = match compile_pattern(pattern) {
        Ok(p) => p,
        Err(m) => {
            let mut e = String::from_str("invalid version regex: ");
            e.append(m.as_str());
            return Err(e);
        },
    };
    match capture_group1(&p, text) {
        Some(v) => Ok(v),
        None => Err(String::from_str("version output did not match regex")),
    }
}

/// What was found of one managed dependency on this machine.
#[derive(Debug)]
pub struct DepProbe {
    pub name: String,
    pub command: String,
    /// The command is on the path.
    pub found: bool,
    /// What the version check read (its version or its error), when the
    /// dependency has one and the command was found.
    pub version: Option<Result<String, String>>,
    /// The version the manifest expects, or `latest`.
    pub expected: String,
}

/// What is at a managed link's target.
#[derive(Debug)]
pub enum LinkState {
    /// A symlink to `actual`; `matches` tells whether it leads to the
    /// expected source.
    Points { actual: String, matches: bool },
    /// Something that is not a symlink.
    NotLink,
    /// Nothing.
    Absent,
}

/// What was found of one managed dotfile link.
#[derive(Debug)]
pub struct FileProbe {
    pub target: String,
    pub expected: String,
    pub state: LinkState,
}

/// The doctor's findings, in the order they were made.
#[derive(Debug)]
pub struct DoctorFindings {
    pub ok: Vec<String>,
    pub warnings: Vec<String>,
    pub errors: Vec<String>,
}

/// The lines one dependency contributes: (fine, warnings, hard errors).
pub open spec fn dep_lines_spec(d: DepProbe) -> (Seq<Seq<char>>, Seq<Seq<char>>, Seq<Seq<char>>) {
    if !d.found {
        (seq![], seq![], seq![d.name@ + ": missing command "@ + d.command@])
    } else {
        let first = d.name@ + ": command "@ + d.command@;
        match d.version {
            None => (seq![first], seq![], seq![]),
            Some(Ok(v)) => if d.expected@ == "latest"@ || d.expected@ == v@ {
                (seq![first, d.name@ + ": version "@ + v@], seq![], seq![])
            } else {
                (
                    seq![first],
                    seq![d.name@ + ": version drift installed="@ + v@ + " expected="@ + d.expected@],
                    seq![],
                )
            },
            Some(Err(e)) => (seq![first], seq![], seq![d.name@ + ": "@ + e@]),
        }
    }
}

/// No drift: a dependency that is not found, has no version check, or reads
/// as `latest`-pinned or as its pinned version.
pub open spec fn no_drift(d: DepProbe) -> bool {
    match d.version {
        Some(Ok(v)) => !d.found || d.expected@ == "latest"@ || d.expected@ == v@,
        _ => true,
    }
}

/// What the doctor says of one dependency, as laws over every probe: a
/// missing command is the one hard error; a found command is reported fine;
/// its version drifts (one warning naming both versions) exactly when the
/// version read differs from a pinned one, and otherwise the version read
/// is reported fine; an unreadable version is a hard error.
pub proof fn lemma_dep_lines_laws(d: DepProbe)
    ensures
        ({
            let (ok, warn, err) = dep_lines_spec(d);
            &&& !d.found ==> ok.len() == 0 && warn.len() == 0 && err == seq![d.name@ + ": missing command "@ + d.command@]
            &&& d.found ==> ok.len() >= 1 && ok[0] == d.name@ + ": command "@ + d.command@
            &&& (warn.len() > 0) == !no_drift(d)
            &&& d.found ==> (err.len() > 0) == (d.version matches Some(Err(_)))
            &&& d.found && no_drift(d) ==> (d.version matches Some(Ok(v)) ==> ok == seq![
                d.name@ + ": command "@ + d.command@,
                d.name@ + ": version "@ + v@,
            ])
            &&& !no_drift(d) ==> (d.version matches Some(Ok(v)) ==> warn == seq![
                d.name@ + ": version drift installed="@ + v@ + " expected="@ + d.expected@,
            ])
        }),
{
}

/// With no dependency drifting, the doctor raises no warning at all.
pub proof fn lemma_no_drift_no_warnings(deps: Seq<DepProbe>, files: Seq<FileProbe>)
    requires
        forall|k: int| 0 <= k < deps.len() ==> no_drift(#[trigger] deps[k]),
    ensures
        findings_spec(deps, files).1.len() == 0,
    decreases deps.len() + files.len(),
{
    if files.len() > 0 {
        lemma_no_drift_no_warnings(deps, files.drop_last());
    } else if deps.len() > 0 {
        lemma_no_drift_no_warnings(deps.drop_last(), files);
        lemma_dep_lines_laws(deps.last());
    }
}

/// The lines one link contributes: (fine, hard errors).
pub open spec fn file_lines_spec(f: FileProbe) -> (Seq<Seq<char>>, Seq<Seq<char>>) {
    match f.state {
        LinkState::Points { actual, matches } => if matches {
            (seq!["link "@ + f.target@ + " -> "@ + f.expected@], seq![])
        } else {
            (seq![], seq!["wrong link "@ + f.target@ + " -> "@ + actual@ + ", expected "@ + f.expected@])
        },
        LinkState::NotLink => (seq![], seq!["target exists but is not a symlink: "@ + f.target@]),
        LinkState::Absent => (seq![], seq!["missing target symlink: "@ + f.target@]),
    }
}

/// The findings of the dependencies, then of the links, in order.
pub open spec fn findings_spec(deps: Seq<DepProbe>, files: Seq<FileProbe>) -> (Seq<Seq<char>>, Seq<Seq<char>>, Seq<Seq<char>>)
    decreases deps.len() + files.len(),
{
    if files.len() > 0 {
        let (o, w, e) = findings_spec(deps, files.drop_last());
        let (fo, fe) = file_lines_spec(files.last());
        (o + fo, w, e + fe)
    } else if deps.len() > 0 {
        let (o, w, e) = findings_spec(deps.drop_last(), files);
        let (d_o, dw, de) = dep_lines_spec(deps.last());
        (o + d_o, w + dw, e + de)
    } else {
        (seq![], seq![], seq![])
    }
}

/// The lines one dependency contributes.
fn dep_lines(d: &DepProbe) -> (r: (Vec<String>, Vec<String>, Vec<String>))
    ensures
        (str_views(r.0@), str_views(r.1@), str_views(r.2@)) == dep_lines_spec(*d),
{
    let mut ok: Vec<String> = Vec::new();
    let mut warn: Vec<String> = Vec::new();
    let mut err: Vec<String> = Vec::new();
    if !d.found {
        let mut m = d.name.clone();
        m.append(": missing command ");
        m.append(d.command.as_str());
        err.push(m);
        assert(str_views(err@) =~= seq![d.name@ + ": missing command "@ + d.command@]);
        assert(str_views(ok@) =~= Seq::<Seq<char>>::empty());
        assert(str_views(warn@) =~= Seq::<Seq<char>>::empty());
        return (ok, warn, err);
    }
    let mut first = d.name.clone();
    first.append(": command ");
    first.append(d.command.as_str());
    ok.push(first);
    match &d.version {
        None => {},
        Some(Ok(v)) => {
            if str_eq(d.expected.as_str(), "latest") || str_eq(d.expected.as_str(), v.as_str()) {
                let mut m = d.name.clone();
                m.append(": version ");
                m.append(v.as_str());
                ok.push(m);
            } else {
                let mut m = d.name.clone();
                m.append(": version drift installed=");
                m.append(v.as_str());
                m.append(" expected=");
                m.append(d.expected.as_str());
                warn.push(m);
            }
        },
        Some(Err(e)) => {
            let mut m = d.name.clone();
            m.append(": ");
            m.append(e.as_str());
            err.push(m);
        },
    }
    proof {
        let t = dep_lines_spec(*d);
        assert(str_views(ok@) =~= t.0);
        assert(str_views(warn@) =~= t.1);
        assert(str_views(err@) =~= t.2);
    }
    (ok, warn, err)
}

/// The lines one link contributes.
fn file_lines(f: &FileProbe) -> (r: (Vec<String>, Vec<String>))
    ensures
        (str_views(r.0@), str_views(r.1@)) == file_lines_spec(*f),
{
    let mut ok: Vec<String> = Vec::new();
    let mut err: Vec<String> = Vec::new();
    match &f.state {
        LinkState::Points { actual, matches } => {
            if *matches {
                let mut m = String::from_str("link ");
                m.append(f.target.as_str());
                m.append(" -> ");
                m.append(f.expected.as_str());
                ok.push(m);
            } else {
                let mut m = String::from_str("wrong link ");
                m.append(f.target.as_str());
                m.append(" -> ");
                m.append(actual.as_str());
                m.append(", expected ");
                m.append(f.expected.as_str());
                err.push(m);
            }
        },
        LinkState::NotLink => {
            let mut m = String::from_str("target exists but is not a symlink: ");
            m.append(f.target.as_str());
            err.push(m);
        },
        LinkState::Absent => {
            let mut m = String::from_str("missing target symlink: ");
            m.append(f.target.as_str());
            err.push(m);
        },
    }
    proof {
        let t = file_lines_spec(*f);
        assert(str_views(ok@) =~= t.0);
        assert(str_views(err@) =~= t.1);
    }
    (ok, err)
}

fn extend(v: &mut Vec<String>, w: Vec<String>)
    ensures
        str_views(final(v)@) == str_views(old(v)@) + str_views(w@),
{
    let mut w = w;
    let ghost a = v@;
    let ghost b = w@;
    v.append(&mut w);
    assert(str_views(v@) =~= str_views(a) + str_views(b));
}

/// The doctor's findings for the probed dependencies and links: for each
/// dependency, a missing command is a hard error, a found one is fine, and
/// its version is fine when it is the expected one or `latest` is expected,
/// a warning when it drifted, and a hard error when it could not be read;
/// for each link, one leading to the expected source is fine, and one
/// leading elsewhere, a target that is not a link, or a missing target is a
/// hard error.
pub fn doctor_findings(deps: &Vec<DepProbe>, files: &Vec<FileProbe>) -> (r: DoctorFindings)
    ensures
        (str_views(r.ok@), str_views(r.warnings@), str_views(r.errors@)) == findings_spec(deps@, files@),
{
    let mut ok: Vec<String> = Vec::new();
    let mut warnings: Vec<String> = Vec::new();
    let mut errors: Vec<String> = Vec::new();
    let mut i: usize = 0;
    proof {
        assert(files@.take(0) =~= Seq::<FileProbe>::empty());
        assert(deps@.take(0) =~= Seq::<DepProbe>::empty());
        assert(str_views(ok@) =~= Seq::<Seq<char>>::empty());
        assert(str_views(warnings@) =~= Seq::<Seq<char>>::empty());
        assert(str_views(errors@) =~= Seq::<Seq<char>>::empty());
    }
    while i < deps.len()
        invariant
            i <= deps@.len(),
            (str_views(ok@), str_views(warnings@), str_views(errors@)) == findings_spec(
                deps@.take(i as int),
                Seq::<FileProbe>::empty(),
            ),
        decreases deps@.len() - i,
    {
        let (o, w, e) = dep_lines(&deps[i]);
        extend(&mut ok, o);
        extend(&mut warnings, w);
        extend(&mut errors, e);
        proof {
            assert(deps@.take(i + 1).drop_last() =~= deps@.take(i as int));
        }
        i += 1;
    }
    assert(deps@.take(deps@.len() as int) =~= deps@);
    let mut j: usize = 0;
    while j < files.len()
        invariant
            j <= files@.len(),
            (str_views(ok@), str_views(warnings@), str_views(errors@)) == findings_spec(deps@, files@.take(j as int)),
        decreases files@.len() - j,
    {
        let (o, e) = file_lines(&files[j]);
        extend(&mut ok, o);
        extend(&mut errors, e);
        proof {
            assert(files@.take(j + 1).drop_last() =~= files@.take(j as int));
        }
        j += 1;
    }
    assert(files@.take(files@.len() as int) =~= files@);
    DoctorFindings { ok, warnings, errors }
}

/// The doctor's outcome: done when there is no hard error, else an error
/// counting them.
pub fn doctor_result(f: &DoctorFindings) -> (r: Result<(), String>)
    ensures
        f.errors@.len() == 0 <==> r is Ok,
        r matches Err(e) ==> e@ == "doctor found "@ + crate::text::decimal(f.errors@.len() as nat)
            + " hard error(s)"@,
{
    if f.errors.len() == 0 {
        return Ok(());
    }
    let mut e = String::from_str("doctor found ");
    e.append(crate::text::string_of(crate::text::decimal_chars(f.errors.len() as u64).as_slice()).as_str());
    e.append(" hard error(s)");
    Err(e)
}

} // verus!
