//! Updating the dotman executable from the latest GitHub release: which
//! release to fetch, where from, and whether the downloaded artifact is the
//! one its checksum file names.

use vstd::prelude::*;
use vstd::utf8::{decode_utf8, valid_utf8};
use crate::stamp::{hex_lower, hex_text, sha256_digest, sha256_of};
use crate::text::{ascii_lower_seq, chars_eq, chars_of, str_eq, to_ascii_lowercase, trim, trim_chars, words, words_of};

verus! {

/// The repository whose releases carry dotman.
pub const REPOSITORY: &'static str = "tabsp/dotfiles";

/// The GitHub API the latest release is asked from.
pub const GITHUB_API: &'static str = "https://api.github.com";

/// Where release artifacts are downloaded from.
pub const GITHUB_DOWNLOAD: &'static str = "https://github.com";

/// The user agent of update requests.
pub const USER_AGENT: &'static str = "dotman-self-update";

#[verifier::external_type_specification]
#[verifier::external_body]
pub struct ExSemverVersion(semver::Version);

/// What `semver::Version::parse` makes of `text`: success, or the message of
/// the error it reports.
pub uninterp spec fn semver_parse(text: Seq<char>) -> Result<(), Seq<char>>;

/// Whether the version parsed from `a` is at most the one parsed from `b`,
/// in `semver::Version`'s order.
pub uninterp spec fn semver_le(a: Seq<char>, b: Seq<char>) -> bool;

/// A version parsed from its text; its view is that text.
pub struct ReleaseVersion {
    text: String,
    value: semver::Version,
}

impl View for ReleaseVersion {
    type V = Seq<char>;

    closed spec fn view(&self) -> Seq<char> {
        self.text@
    }
}

/// `semver::Version::parse`: the version `text` denotes, or the message of
/// the error the crate reports. Whether it succeeds and what it reports are
/// named, not stated.
#[verifier::external_body]
fn parse_semver(text: &str) -> (r: Result<ReleaseVersion, String>)
    ensures
        match r {
            Ok(v) => semver_parse(text@) is Ok && v@ == text@,
            Err(e) => semver_parse(text@) == Err::<(), Seq<char>>(e@),
        },
{
    match semver::Version::parse(text) {
        Ok(value) => Ok(ReleaseVersion { text: text.to_string(), value }),
        Err(e) => Err(e.to_string()),
    }
}

/// `<=` on `semver::Version`: whether `a` is at most `b`.
#[verifier::external_body]
fn version_le(a: &ReleaseVersion, b: &ReleaseVersion) -> (r: bool)
    ensures
        r == semver_le(a@, b@),
{
    a.value <= b.value
}

/// `std::str::from_utf8`: the text the bytes encode, `None` when they are
/// not UTF-8.
#[verifier::external_body]
fn utf8_text(bytes: &[u8]) -> (r: Option<String>)
    ensures
        r is Some <==> valid_utf8(bytes@),
        r matches Some(s) ==> s@ == decode_utf8(bytes@),
{
    std::str::from_utf8(bytes).ok().map(|s| s.to_string())
}

impl ReleaseVersion {
    /// The text the version was parsed from.
    pub fn text(&self) -> (r: &str)
        ensures
            r@ == self@,
    {
        self.text.as_str()
    }
}

/// Whether `latest` is a newer version than `current`.
pub fn is_newer(latest: &ReleaseVersion, current: &ReleaseVersion) -> (r: bool)
    ensures
        r == !semver_le(latest@, current@),
{
    !version_le(latest, current)
}

/// The text of a version as written in a tag or given: trimmed, and without
/// one leading `v`.
pub open spec fn version_text(value: Seq<char>) -> Seq<char> {
    let t = trim(value);
    if t.len() > 0 && t[0] == 'v' {
        t.drop_first()
    } else {
        t
    }
}

/// Parses a release version, accepting a leading `v`.
pub fn parse_version(value: &str) -> (r: Result<ReleaseVersion, String>)
    ensures
        match semver_parse(version_text(value@)) {
            Ok(_) => r matches Ok(v) && v@ == version_text(value@),
            Err(m) => r matches Err(e) && e@ == "invalid release version '"@ + value@ + "': "@ + m,
        },
{
    let t = trim_chars(chars_of(value).as_slice());
    let text = if t.len() > 0 && t[0] == 'v' {
        let mut rest: Vec<char> = Vec::new();
        let mut i: usize = 1;
        while i < t.len()
            invariant
                1 <= i <= t@.len(),
                rest@ == t@.subrange(1, i as int),
            decreases t@.len() - i,
        {
            rest.push(t[i]);
            i += 1;
            assert(rest@ =~= t@.subrange(1, i as int));
        }
        assert(rest@ =~= t@.drop_first());
        crate::text::string_of(rest.as_slice())
    } else {
        crate::text::string_of(t.as_slice())
    };
    match parse_semver(text.as_str()) {
        Ok(v) => Ok(v),
        Err(m) => {
            let mut e = String::from_str("invalid release version '");
            e.append(value);
            e.append("': ");
            e.append(m.as_str());
            Err(e)
        },
    }
}

/// The release target of an architecture and operating system, as Rust
/// names them.
pub open spec fn release_target_spec(arch: Seq<char>, os: Seq<char>) -> Option<Seq<char>> {
    if arch == "aarch64"@ && os == "macos"@ {
        Some("aarch64-apple-darwin"@)
    } else if arch == "x86_64"@ && os == "macos"@ {
        Some("x86_64-apple-darwin"@)
    } else if arch == "aarch64"@ && os == "linux"@ {
        Some("aarch64-unknown-linux-gnu"@)
    } else if arch == "x86_64"@ && os == "linux"@ {
        Some("x86_64-unknown-linux-gnu"@)
    } else {
        None
    }
}

/// The release artifact target for this machine, or an error where no
/// release is built for it.
pub fn release_target(arch: &str, os: &str) -> (r: Result<&'static str, String>)
    ensures
        match release_target_spec(arch@, os@) {
            Some(t) => r matches Ok(s) && s@ == t,
            None => r matches Err(e) && e@ == "self-update is not supported on "@ + os@ + "/"@ + arch@,
        },
{
    if str_eq(arch, "aarch64") && str_eq(os, "macos") {
        Ok("aarch64-apple-darwin")
    } else if str_eq(arch, "x86_64") && str_eq(os, "macos") {
        Ok("x86_64-apple-darwin")
    } else if str_eq(arch, "aarch64") && str_eq(os, "linux") {
        Ok("aarch64-unknown-linux-gnu")
    } else if str_eq(arch, "x86_64") && str_eq(os, "linux") {
        Ok("x86_64-unknown-linux-gnu")
    } else {
        let mut e = String::from_str("self-update is not supported on ");
        e.append(os);
        e.append("/");
        e.append(arch);
        Err(e)
    }
}

/// The address the latest release is asked from.
pub fn release_url(api_base: &str) -> (r: String)
    ensures
        r@ == api_base@ + "/repos/"@ + REPOSITORY@ + "/releases/latest"@,
{
    let mut r = String::from_str(api_base);
    r.append("/repos/");
    r.append(REPOSITORY);
    r.append("/releases/latest");
    r
}

/// What an update does next.
#[derive(Debug)]
pub enum UpdateStep {
    /// The running version is the latest one; the message says so.
    UpToDate(String),
    /// Download the artifact and its checksum file, check the one against
    /// the other, and install the binary it holds. `announce` is shown
    /// before, `done` after.
    Fetch { artifact_url: String, checksum_url: String, announce: String, done: String },
}

/// The address of the artifact for `target` in the release tagged `tag`.
pub open spec fn artifact_url_spec(download_base: Seq<char>, tag: Seq<char>, target: Seq<char>) -> Seq<char> {
    download_base + "/"@ + REPOSITORY@ + "/releases/download/"@ + tag + "/"@ + "dotman-"@ + target + ".tar.gz"@
}

/// `s` is the step that fetches the release `tag` for `target`, updating
/// from `current`.
pub open spec fn is_fetch_step(s: UpdateStep, current: Seq<char>, tag: Seq<char>, target: Seq<char>, download_base: Seq<char>) -> bool {
    &&& s matches UpdateStep::Fetch { artifact_url, checksum_url, announce, done }
    &&& artifact_url@ == artifact_url_spec(download_base, tag, target)
    &&& checksum_url@ == artifact_url_spec(download_base, tag, target) + ".sha256"@
    &&& announce@ == "Updating dotman "@ + current + " -> "@ + version_text(tag) + " ("@ + target + ")..."@
    &&& done@ == "dotman updated successfully to "@ + version_text(tag) + "."@
}

/// Decides an update from the running version `current` to the latest
/// release `tag`: nothing when the release is not newer, else where to fetch
/// it for this machine. Errors for a version that does not parse (the tag
/// first) and for a machine without release builds.
pub fn plan_update(current: &str, tag: &str, arch: &str, os: &str, download_base: &str) -> (r: Result<UpdateStep, String>)
    ensures
        match semver_parse(version_text(tag@)) {
            Err(m) => r matches Err(e) && e@ == "invalid release version '"@ + tag@ + "': "@ + m,
            Ok(_) => match semver_parse(version_text(current@)) {
                Err(m) => r matches Err(e) && e@ == "invalid release version '"@ + current@ + "': "@ + m,
                Ok(_) => if semver_le(version_text(tag@), version_text(current@)) {
                    r matches Ok(UpdateStep::UpToDate(m)) && m@ == "dotman "@ + current@ + " is already the latest version."@
                } else {
                    match release_target_spec(arch@, os@) {
                        None => r matches Err(e) && e@ == "self-update is not supported on "@ + os@ + "/"@ + arch@,
                        Some(t) => r matches Ok(s) && is_fetch_step(s, current@, tag@, t, download_base@),
                    }
                },
            },
        },
{
    let latest = parse_version(tag)?;
    let running = parse_version(current)?;
    if !is_newer(&latest, &running) {
        let mut m = String::from_str("dotman ");
        m.append(current);
        m.append(" is already the latest version.");
        return Ok(UpdateStep::UpToDate(m));
    }
    let target = release_target(arch, os)?;
    let mut artifact_url = String::from_str(download_base);
    artifact_url.append("/");
    artifact_url.append(REPOSITORY);
    artifact_url.append("/releases/download/");
    artifact_url.append(tag);
    artifact_url.append("/");
    artifact_url.append("dotman-");
    artifact_url.append(target);
    artifact_url.append(".tar.gz");
    let mut checksum_url = artifact_url.clone();
    checksum_url.append(".sha256");
    let mut announce = String::from_str("Updating dotman ");
    announce.append(current);
    announce.append(" -> ");
    announce.append(latest.text());
    announce.append(" (");
    announce.append(target);
    announce.append(")...");
    let mut done = String::from_str("dotman updated successfully to ");
    done.append(latest.text());
    done.append(".");
    Ok(UpdateStep::Fetch { artifact_url, checksum_url, announce, done })
}

/// An ASCII hexadecimal digit.
pub open spec fn is_hex_digit(c: char) -> bool {
    ('0' <= c && c <= '9') || ('a' <= c && c <= 'f') || ('A' <= c && c <= 'F')
}

/// The digest a checksum file names: its first word, when that is 64
/// hexadecimal digits.
pub open spec fn checksum_digest(text: Seq<char>) -> Option<Seq<char>> {
    let w = words_of(text);
    if w.len() > 0 && w[0].len() == 64 && forall|i: int| 0 <= i < 64 ==> #[trigger] is_hex_digit(w[0][i]) {
        Some(w[0])
    } else {
        None
    }
}

/// Checks a downloaded artifact against its checksum file (`<digest>
/// <name>`): the file must be UTF-8 and start with a SHA-256 digest, which
/// must be the artifact's, in either case.
pub fn verify_checksum(archive: &[u8], checksum_file: &[u8]) -> (r: Result<(), String>)
    ensures
        !valid_utf8(checksum_file@) ==> (r matches Err(e) && e@ == "checksum file is not valid UTF-8"@),
        valid_utf8(checksum_file@) ==> match checksum_digest(decode_utf8(checksum_file@)) {
            None => r matches Err(e) && e@ == "checksum file does not contain a valid SHA-256 digest"@,
            Some(d) => if ascii_lower_seq(hex_text(sha256_of(archive@))) == ascii_lower_seq(d) {
                r is Ok
            } else {
                r matches Err(e) && e@ == "release artifact checksum verification failed"@
            },
        },
{
    let text = match utf8_text(checksum_file) {
        Some(t) => t,
        None => {
            return Err(String::from_str("checksum file is not valid UTF-8"));
        },
    };
    let ws = words(chars_of(text.as_str()).as_slice());
    if ws.len() == 0 || ws[0].len() != 64 {
        return Err(String::from_str("checksum file does not contain a valid SHA-256 digest"));
    }
    let first = &ws[0];
    assert(first@ == words_of(text@)[0]);
    let mut i: usize = 0;
    while i < 64
        invariant
            i <= 64,
            first@.len() == 64,
            valid_utf8(checksum_file@),
            text@ == decode_utf8(checksum_file@),
            words_of(text@).len() > 0,
            first@ == words_of(text@)[0],
            forall|k: int| 0 <= k < i ==> #[trigger] is_hex_digit(first@[k]),
        decreases 64 - i,
    {
        let c = first[i];
        if !(('0' <= c && c <= '9') || ('a' <= c && c <= 'f') || ('A' <= c && c <= 'F')) {
            assert(!is_hex_digit(first@[i as int]));
            return Err(String::from_str("checksum file does not contain a valid SHA-256 digest"));
        }
        i += 1;
    }
    let digest = sha256_digest(archive);
    let actual = hex_lower(digest.as_slice());
    let a = to_ascii_lowercase(chars_of(actual.as_str()).as_slice());
    let b = to_ascii_lowercase(first.as_slice());
    if chars_eq(a.as_slice(), b.as_slice()) {
        Ok(())
    } else {
        Err(String::from_str("release artifact checksum verification failed"))
    }
}

} // verus!
