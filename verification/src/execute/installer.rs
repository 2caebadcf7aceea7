//! The decisions of an install step: whether anything needs installing,
//! the font download command, and the retry schedule of install commands.

use vstd::prelude::*;
use vstd::arithmetic::power2::pow2;
use crate::execute::result::{cap_output_len, capped, exit_code_chars, exit_code_text, push_output_line};
use crate::execute::runner::{InstallReport, Notice};
use crate::model::{ActionStatus, OutputLine, OutputStream};
use crate::ops::install::{InstallPresence, InstallSpec};
use crate::ops::shell::{command_contains_sudo, mentions_sudo};
use crate::text::{chars_of, decimal, decimal_chars, opt_string_view, string_of};

verus! {

/// Default number of install attempts when an item does not override it.
pub const DEFAULT_INSTALL_RETRIES: u32 = 2;

/// `s` with every single quote replaced by `'\''`.
pub open spec fn escape_single_quotes(s: Seq<char>) -> Seq<char>
    decreases s.len(),
{
    if s.len() == 0 {
        seq![]
    } else if s.last() == '\'' {
        escape_single_quotes(s.drop_last()) + "'\\''"@
    } else {
        escape_single_quotes(s.drop_last()).push(s.last())
    }
}

/// `s` as one single-quoted word for `sh`.
pub open spec fn sh_quoted(s: Seq<char>) -> Seq<char> {
    seq!['\''] + escape_single_quotes(s) + seq!['\'']
}

/// Quotes `s` as a single `sh` word: wrapped in single quotes, each
/// embedded single quote written as `'\''`.
pub fn shell_quote(s: &str) -> (r: String)
    ensures
        r@ == sh_quoted(s@),
{
    let v = chars_of(s);
    let mut out: Vec<char> = Vec::new();
    out.push('\'');
    let mut i: usize = 0;
    while i < v.len()
        invariant
            i <= v.len(),
            v@ == s@,
            out@ == seq!['\''] + escape_single_quotes(v@.take(i as int)),
        decreases v.len() - i,
    {
        let ghost prev = out@;
        if v[i] == '\'' {
            out.push('\'');
            out.push('\\');
            out.push('\'');
            out.push('\'');
            proof {
                reveal_strlit("'\\''");
                assert(v@.take(i + 1).drop_last() =~= v@.take(i as int));
                assert(out@ =~= prev + "'\\''"@);
            }
        } else {
            out.push(v[i]);
            proof {
                assert(v@.take(i + 1).drop_last() =~= v@.take(i as int));
            }
        }
        i += 1;
    }
    out.push('\'');
    assert(v@.take(v.len() as int) =~= v@);
    string_of(out.as_slice())
}

/// The first install retry waits this many seconds; each later one twice
/// as long as the one before.
pub const RETRY_INITIAL_DELAY_SECS: u64 = 5;

pub const FONT_PROBE_HEAD: &'static str = "if command -v fc-list >/dev/null 2>&1 && fc-list | grep -qi ";
pub const FONT_PROBE_MID: &'static str = "; then echo ";
pub const FONT_PROBE_TAIL: &'static str = "; exit 0; fi && ";
pub const FONT_FETCH_HEAD: &'static str = "tmpdir=$(mktemp -d) && trap 'rm -rf \"$tmpdir\"' EXIT HUP INT TERM && mkdir -p ";
pub const FONT_FETCH_CURL: &'static str = " && curl -fsSL ";
pub const FONT_FETCH_UNPACK: &'static str = " -o \"$tmpdir/font.zip\" && unzip -o -q \"$tmpdir/font.zip\" -d \"$tmpdir/font\" && find \"$tmpdir/font\" -type f \\( -name '*.ttf' -o -name '*.otf' \\) -exec cp {} ";
pub const FONT_FETCH_CACHE: &'static str = "/ \\; && if command -v fc-cache >/dev/null 2>&1; then fc-cache -f ";
pub const FONT_FETCH_END: &'static str = "; fi";
pub const FONT_VERIFY_HEAD: &'static str = " && if command -v fc-list >/dev/null 2>&1; then fc-list | grep -qi ";
pub const FONT_VERIFY_MID: &'static str = " || { echo ";
pub const FONT_VERIFY_TAIL: &'static str = "; exit 1; }; fi";

/// The early exit of the font command when fontconfig already knows the
/// family (nothing when no family is known).
pub open spec fn font_probe(family: Seq<char>) -> Seq<char> {
    if family.len() == 0 {
        Seq::empty()
    } else {
        FONT_PROBE_HEAD@ + sh_quoted(family) + FONT_PROBE_MID@ + sh_quoted("font already installed: "@ + family)
            + FONT_PROBE_TAIL@
    }
}

/// The check after installing that fontconfig reports the family (nothing
/// when no family is known).
pub open spec fn font_verify(family: Seq<char>) -> Seq<char> {
    if family.len() == 0 {
        Seq::empty()
    } else {
        FONT_VERIFY_HEAD@ + sh_quoted(family) + FONT_VERIFY_MID@ + sh_quoted(
            "installed font files, but fontconfig did not report: "@ + family,
        ) + FONT_VERIFY_TAIL@
    }
}

/// The command that downloads a font archive from `url` and copies its
/// `.ttf`/`.otf` files into `dir`, refreshing the font cache.
pub open spec fn font_command_spec(dir: Seq<char>, url: Seq<char>, family: Seq<char>) -> Seq<char> {
    font_probe(family) + FONT_FETCH_HEAD@ + sh_quoted(dir) + FONT_FETCH_CURL@ + sh_quoted(url) + FONT_FETCH_UNPACK@
        + sh_quoted(dir) + FONT_FETCH_CACHE@ + sh_quoted(dir) + FONT_FETCH_END@ + font_verify(family)
}

fn font_probe_text(family: &str) -> (r: String)
    ensures
        r@ == font_probe(family@),
{
    if family.is_empty() {
        return String::new();
    }
    let mut msg = String::from_str("font already installed: ");
    msg.append(family);
    let mut s = String::from_str(FONT_PROBE_HEAD);
    s.append(shell_quote(family).as_str());
    s.append(FONT_PROBE_MID);
    s.append(shell_quote(msg.as_str()).as_str());
    s.append(FONT_PROBE_TAIL);
    s
}

fn font_verify_text(family: &str) -> (r: String)
    ensures
        r@ == font_verify(family@),
{
    if family.is_empty() {
        return String::new();
    }
    let mut msg = String::from_str("installed font files, but fontconfig did not report: ");
    msg.append(family);
    let mut s = String::from_str(FONT_VERIFY_HEAD);
    s.append(shell_quote(family).as_str());
    s.append(FONT_VERIFY_MID);
    s.append(shell_quote(msg.as_str()).as_str());
    s.append(FONT_VERIFY_TAIL);
    s
}

/// The font download command for fonts directory `dir`.
pub fn font_command(dir: &str, url: &str, family: &str) -> (r: String)
    ensures
        r@ == font_command_spec(dir@, url@, family@),
{
    let qdir = shell_quote(dir);
    let mut s = font_probe_text(family);
    s.append(FONT_FETCH_HEAD);
    s.append(qdir.as_str());
    s.append(FONT_FETCH_CURL);
    s.append(shell_quote(url).as_str());
    s.append(FONT_FETCH_UNPACK);
    s.append(qdir.as_str());
    s.append(FONT_FETCH_CACHE);
    s.append(qdir.as_str());
    s.append(FONT_FETCH_END);
    s.append(font_verify_text(family).as_str());
    s
}

/// The retries of an install command: the attempts made so far, the last
/// failure, and the output gathered.
#[derive(Debug)]
pub struct InstallRetry {
    pub binary: String,
    pub command: String,
    pub attempt: u32,
    pub max: u32,
    pub last_err: Option<String>,
    pub output: Vec<OutputLine>,
}

/// How an install proceeds once it is known whether the tool is present.
#[derive(Debug)]
pub enum InstallPath {
    /// Nothing to run; the report and its notice are final.
    Done(InstallReport, Notice),
    /// Run this font download command once.
    Font { command: String, fonts_dir: String },
    /// Run the install command, with retries.
    Retry(InstallRetry),
}

/// A final report with no output and one notice.
pub open spec fn done_with(p: InstallPath, status: ActionStatus, error: Option<Seq<char>>, is_error: bool, msg: Seq<char>) -> bool {
    match p {
        InstallPath::Done(rep, n) => rep.status == status && opt_string_view(rep.error) == error
            && rep.attempts == 0 && n.is_error == is_error && n.message@ == msg && (if is_error {
            rep.output@.len() == 0
        } else {
            rep.output@ == seq![OutputLine { stream: OutputStream::Action, line: rep.output@[0].line }]
                && rep.output@[0].line@ == msg
        }),
        _ => false,
    }
}

fn done(status: ActionStatus, error: Option<String>, is_error: bool, msg: String) -> (r: InstallPath)
    ensures
        done_with(r, status, opt_string_view(error), is_error, msg@),
{
    let mut output: Vec<OutputLine> = Vec::new();
    if !is_error {
        output.push(OutputLine { stream: OutputStream::Action, line: msg.clone() });
    }
    InstallPath::Done(InstallReport { status, error, attempts: 0, output }, Notice { is_error, message: msg })
}

/// Decides how to install: nothing when the tool is present; for a font
/// without a package command, a download into `<home>/.local/share/fonts`
/// (failing without a source URL or a home); a failure when no command is
/// known; else the command with up to `max_retries` retries.
pub fn install_path(spec: &InstallSpec, presence: InstallPresence, home: &str, max_retries: u32) -> (r: InstallPath)
    requires
        max_retries <= 62,
    ensures
        presence == InstallPresence::Present ==> done_with(
            r,
            ActionStatus::NoChange,
            None,
            false,
            "already installed: "@ + spec.entry.name@,
        ),
        presence != InstallPresence::Present && spec.entry.kind@ == "font"@ && spec.command is None ==> {
            if spec.entry.source_url@.len() == 0 {
                let m = "font "@ + spec.entry.name@ + " missing source_url"@;
                done_with(r, ActionStatus::WillFail, Some(m), true, m)
            } else if home@.len() == 0 {
                done_with(r, ActionStatus::WillFail, Some("HOME not set"@), true, "HOME not set"@)
            } else {
                r matches InstallPath::Font { command, fonts_dir } && fonts_dir@ == home@
                    + "/.local/share/fonts"@ && command@ == font_command_spec(
                    fonts_dir@,
                    spec.entry.source_url@,
                    spec.entry.font_family@,
                )
            }
        },
        presence != InstallPresence::Present && !(spec.entry.kind@ == "font"@) && spec.command is None ==> {
            let m = match spec.error {
                Some(e) => e@,
                None => "no install command for "@ + spec.pkg_mgr@,
            };
            done_with(r, ActionStatus::WillFail, Some(m), true, m)
        },
        presence != InstallPresence::Present && spec.command is Some ==> (r matches InstallPath::Retry(t)
            && t.binary == spec.entry.name && Some(t.command) == spec.command && t.attempt == 0 && t.max
            == max_retries + 1 && t.last_err is None && t.output@.len() == 0),
{
    let entry = &spec.entry;
    if matches!(presence, InstallPresence::Present) {
        let mut msg = String::from_str("already installed: ");
        msg.append(entry.name.as_str());
        return done(ActionStatus::NoChange, None, false, msg);
    }
    let is_font = crate::text::str_eq(entry.kind.as_str(), "font");
    if is_font && spec.command.is_none() {
        if entry.source_url.as_str().is_empty() {
            let mut msg = String::from_str("font ");
            msg.append(entry.name.as_str());
            msg.append(" missing source_url");
            return done(ActionStatus::WillFail, Some(msg.clone()), true, msg);
        }
        if home.is_empty() {
            return done(
                ActionStatus::WillFail,
                Some(String::from_str("HOME not set")),
                true,
                String::from_str("HOME not set"),
            );
        }
        let mut fonts_dir = String::from_str(home);
        fonts_dir.append("/.local/share/fonts");
        let command = font_command(fonts_dir.as_str(), entry.source_url.as_str(), entry.font_family.as_str());
        return InstallPath::Font { command, fonts_dir };
    }
    match &spec.command {
        Some(cmd) => InstallPath::Retry(
            InstallRetry {
                binary: entry.name.clone(),
                command: cmd.clone(),
                attempt: 0,
                max: max_retries + 1,
                last_err: None,
                output: Vec::new(),
            },
        ),
        None => {
            let msg = match &spec.error {
                Some(e) => e.clone(),
                None => {
                    let mut m = String::from_str("no install command for ");
                    m.append(spec.pkg_mgr.as_str());
                    m
                },
            };
            done(ActionStatus::WillFail, Some(msg.clone()), true, msg)
        },
    }
}

/// What the font download came to: installed on exit 0, a failure on any
/// other exit, an abort when killed. The notice, when there is one, is also
/// the last output line.
pub fn font_result(name: &str, fonts_dir: &str, exit_code: Option<i32>, output: Vec<OutputLine>) -> (r: (
    InstallReport,
    Option<Notice>,
))
    ensures
        r.0.attempts == 1,
        match exit_code {
            Some(c) => {
                let m = if c == 0 {
                    "font "@ + name@ + " installed to "@ + fonts_dir@
                } else {
                    "font install failed (exit "@ + exit_code_text(c) + ")"@
                };
                &&& r.0.status == (if c == 0 {
                    ActionStatus::WillInstall
                } else {
                    ActionStatus::WillFail
                })
                &&& opt_string_view(r.0.error) == (if c == 0 {
                    None
                } else {
                    Some(m)
                })
                &&& r.1 matches Some(n) && n.message@ == m && n.is_error == (c != 0)
                &&& r.0.output@.len() > 0 && r.0.output@ == capped(output@.push(r.0.output@.last()))
                    && r.0.output@.last().line@ == m && r.0.output@.last().stream == OutputStream::Action
            },
            None => r.0.status == ActionStatus::Aborted && opt_string_view(r.0.error) == Some("aborted"@)
                && r.1 is None && r.0.output@ == output@,
        },
{
    let mut output = output;
    match exit_code {
        Some(c) => {
            let msg = if c == 0 {
                let mut m = String::from_str("font ");
                m.append(name);
                m.append(" installed to ");
                m.append(fonts_dir);
                m
            } else {
                let mut m = String::from_str("font install failed (exit ");
                m.append(string_of(exit_code_chars(c).as_slice()).as_str());
                m.append(")");
                m
            };
            push_output_line(&mut output, OutputStream::Action, msg.as_str());
            if c == 0 {
                (
                    InstallReport { status: ActionStatus::WillInstall, error: None, attempts: 1, output },
                    Some(Notice { is_error: false, message: msg }),
                )
            } else {
                (
                    InstallReport {
                        status: ActionStatus::WillFail,
                        error: Some(msg.clone()),
                        attempts: 1,
                        output,
                    },
                    Some(Notice { is_error: true, message: msg }),
                )
            }
        },
        None => (
            InstallReport {
                status: ActionStatus::Aborted,
                error: Some(String::from_str("aborted")),
                attempts: 1,
                output,
            },
            None,
        ),
    }
}

/// The text of an attempt line.
pub open spec fn attempt_line(binary: Seq<char>, attempt: nat, max: nat) -> Seq<char> {
    "install "@ + binary + ": attempt "@ + decimal(attempt) + "/"@ + decimal(max)
}

/// The wait before retry number `attempt` (counting from 1): 5 s, doubling.
pub open spec fn retry_delay(attempt: nat) -> nat {
    (RETRY_INITIAL_DELAY_SECS * pow2((attempt - 1) as nat)) as nat
}

impl InstallRetry {
    /// Whether attempts remain.
    pub fn more(&self) -> (r: bool)
        ensures
            r == (self.attempt < self.max),
    {
        self.attempt < self.max
    }

    /// The command needs a live sudo session.
    pub fn needs_sudo(&self) -> (r: bool)
        ensures
            r == mentions_sudo(self.command@),
    {
        command_contains_sudo(self.command.as_str())
    }

    /// Starts the next attempt and records its line.
    pub fn begin_attempt(&mut self) -> (line: String)
        requires
            old(self).attempt < old(self).max,
        ensures
            final(self).attempt == old(self).attempt + 1,
            line@ == attempt_line(old(self).binary@, final(self).attempt as nat, old(self).max as nat),
            final(self).output@ == capped(old(self).output@.push(final(self).output@.last())),
            final(self).output@.last().line@ == line@,
            final(self).output@.last().stream == OutputStream::Action,
            final(self).binary == old(self).binary,
            final(self).command == old(self).command,
            final(self).max == old(self).max,
            final(self).last_err == old(self).last_err,
    {
        self.attempt = self.attempt + 1;
        let mut line = String::from_str("install ");
        line.append(self.binary.as_str());
        line.append(": attempt ");
        line.append(string_of(decimal_chars(self.attempt as u64).as_slice()).as_str());
        line.append("/");
        line.append(string_of(decimal_chars(self.max as u64).as_slice()).as_str());
        push_output_line(&mut self.output, OutputStream::Action, line.as_str());
        line
    }

    /// The report when the run is aborted between attempts.
    pub fn aborted(self) -> (r: InstallReport)
        ensures
            r.status == ActionStatus::Aborted,
            opt_string_view(r.error) == Some("aborted"@),
            r.attempts == self.attempt,
            r.output == self.output,
    {
        InstallReport {
            status: ActionStatus::Aborted,
            error: Some(String::from_str("aborted")),
            attempts: self.attempt,
            output: self.output,
        }
    }

    /// The report when the sudo session could not be refreshed.
    pub fn sudo_expired(self) -> (r: (InstallReport, Notice))
        ensures
            r.0.status == ActionStatus::WillFail,
            opt_string_view(r.0.error) == Some("sudo session expired"@),
            r.0.attempts == self.attempt,
            r.1.is_error,
            r.1.message@ == crate::execute::runner::SUDO_EXPIRED_MESSAGE@,
            r.0.output@ == capped(self.output@.push(r.0.output@.last())),
            r.0.output@.last().line@ == r.1.message@,
    {
        let mut output = self.output;
        let msg = String::from_str(crate::execute::runner::SUDO_EXPIRED_MESSAGE);
        push_output_line(&mut output, OutputStream::Action, msg.as_str());
        (
            InstallReport {
                status: ActionStatus::WillFail,
                error: Some(String::from_str("sudo session expired")),
                attempts: self.attempt,
                output,
            },
            Notice { is_error: true, message: msg },
        )
    }

    /// Takes in an attempt's exit code and output: installed on exit 0 and
    /// aborted when killed, both final (`Ok`); any other exit is remembered
    /// as the last failure and the retries go on (`Err`).
    pub fn after_command(self, exit_code: Option<i32>, output: Vec<OutputLine>) -> (r: Result<InstallReport, InstallRetry>)
        ensures
            match exit_code {
                Some(c) => if c == 0 {
                    r matches Ok(rep) && rep.status == ActionStatus::WillInstall && rep.error is None
                        && rep.attempts == self.attempt && rep.output@ == capped(self.output@ + output@)
                } else {
                    r matches Err(t) && t.attempt == self.attempt && t.max == self.max && t.binary == self.binary
                        && t.command == self.command && opt_string_view(t.last_err) == Some(
                        "install failed (exit "@ + exit_code_text(c) + ")"@,
                    ) && t.output@ == capped(self.output@ + output@)
                },
                None => r matches Ok(rep) && rep.status == ActionStatus::Aborted && opt_string_view(rep.error)
                    == Some("aborted"@) && rep.attempts == self.attempt && rep.output@ == capped(
                    self.output@ + output@,
                ),
            },
    {
        let mut all = self.output;
        let mut out = output;
        all.append(&mut out);
        cap_output_len(&mut all);
        match exit_code {
            Some(c) => {
                if c == 0 {
                    Ok(InstallReport { status: ActionStatus::WillInstall, error: None, attempts: self.attempt, output: all })
                } else {
                    let mut e = String::from_str("install failed (exit ");
                    e.append(string_of(exit_code_chars(c).as_slice()).as_str());
                    e.append(")");
                    Err(
                        InstallRetry {
                            binary: self.binary,
                            command: self.command,
                            attempt: self.attempt,
                            max: self.max,
                            last_err: Some(e),
                            output: all,
                        },
                    )
                }
            },
            None => Ok(
                InstallReport {
                    status: ActionStatus::Aborted,
                    error: Some(String::from_str("aborted")),
                    attempts: self.attempt,
                    output: all,
                },
            ),
        }
    }

    /// Before another attempt: the wait in seconds and its line
    /// `retrying <binary> in <delay>s`, recorded in the output; `None` when no
    /// attempts remain.
    pub fn retry_wait(&mut self) -> (r: Option<(u64, String)>)
        requires
            1 <= old(self).attempt <= 62,
        ensures
            final(self).attempt == old(self).attempt,
            final(self).max == old(self).max,
            final(self).binary == old(self).binary,
            final(self).command == old(self).command,
            final(self).last_err == old(self).last_err,
            match r {
                Some((delay, line)) => old(self).attempt < old(self).max && delay == retry_delay(
                    old(self).attempt as nat,
                ) && line@ == "retrying "@ + old(self).binary@ + " in "@ + decimal(delay as nat) + "s"@
                    && final(self).output@ == capped(old(self).output@.push(final(self).output@.last()))
                    && final(self).output@.last().line@ == line@,
                None => !(old(self).attempt < old(self).max) && final(self).output == old(self).output,
            },
    {
        if self.attempt >= self.max {
            return None;
        }
        let mut factor: u64 = 1;
        let mut k: u32 = 1;
        proof {
            vstd::arithmetic::power2::lemma2_to64();
        }
        while k < self.attempt
            invariant
                1 <= k <= self.attempt <= 62,
                factor == pow2((k - 1) as nat),
            decreases self.attempt - k,
        {
            proof {
                vstd::arithmetic::power2::lemma_pow2_unfold(k as nat);
                vstd::arithmetic::power2::lemma_pow2_strictly_increases(k as nat, 64);
                vstd::arithmetic::power2::lemma2_to64();
            }
            factor = factor * 2;
            k = k + 1;
        }
        proof {
            if self.attempt - 1 < 61 {
                vstd::arithmetic::power2::lemma_pow2_strictly_increases((self.attempt - 1) as nat, 61);
            }
            vstd::arithmetic::power2::lemma2_to64_rest();
        }
        let delay = RETRY_INITIAL_DELAY_SECS * factor;
        let mut line = String::from_str("retrying ");
        line.append(self.binary.as_str());
        line.append(" in ");
        line.append(string_of(decimal_chars(delay).as_slice()).as_str());
        line.append("s");
        push_output_line(&mut self.output, OutputStream::Action, line.as_str());
        Some((delay, line))
    }

    /// The report once every attempt failed: the last failure, also recorded
    /// as the last output line and raised as an error.
    pub fn exhausted(self) -> (r: (InstallReport, Option<Notice>))
        ensures
            r.0.status == ActionStatus::WillFail,
            r.0.error == self.last_err,
            r.0.attempts == self.attempt,
            match self.last_err {
                Some(e) => r.1 matches Some(n) && n.is_error && n.message@ == e@ && r.0.output@ == capped(
                    self.output@.push(r.0.output@.last()),
                ) && r.0.output@.last().line@ == e@,
                None => r.1 is None && r.0.output == self.output,
            },
    {
        let mut output = self.output;
        let notice = match &self.last_err {
            Some(e) => {
                push_output_line(&mut output, OutputStream::Action, e.as_str());
                Some(Notice { is_error: true, message: e.clone() })
            },
            None => None,
        };
        (InstallReport { status: ActionStatus::WillFail, error: self.last_err, attempts: self.attempt, output }, notice)
    }
}

} // verus!
