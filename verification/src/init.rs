//! Choosing the config file to use, the decisions around cloning and first
//! initialisation, keeping the profile list, and the doctor report.

use vstd::prelude::*;
use crate::profile::{Profile, ProfileConfig, DEFAULT_CONFIG_FILE};
use crate::text::{assoc_get, find_key};

verus! {

/// Where the config was resolved from; a profile source is synced before use.
#[derive(Debug)]
pub enum ConfigSource {
    /// Given with `--config` or found in the working directory.
    Direct(String),
    /// The config file of the active profile.
    Profile(String),
}

impl ConfigSource {
    /// The path of the config file.
    pub fn path(&self) -> (r: String)
        ensures
            r@ == match self {
                ConfigSource::Direct(p) => p@,
                ConfigSource::Profile(p) => p@,
            },
    {
        match self {
            ConfigSource::Direct(p) => p.clone(),
            ConfigSource::Profile(p) => p.clone(),
        }
    }

    /// Whether the profile checkout is pulled before the config is used:
    /// only for a profile's config, never for a path given or found.
    pub fn wants_sync(&self) -> (r: bool)
        ensures
            r == (self is Profile),
    {
        match self {
            ConfigSource::Direct(_) => false,
            ConfigSource::Profile(_) => true,
        }
    }
}

/// A config file location and whether a file is there.
#[derive(Debug)]
pub struct ConfigFile {
    pub path: String,
    pub exists: bool,
}

/// What resolving the config leads to next.
#[derive(Debug)]
pub enum ResolveStep {
    /// Resolution is over.
    Done(Result<ConfigSource, String>),
    /// The active profile is not checked out yet: clone it, then finish with
    /// `after_clone` for this config path.
    CloneProfile(String),
    /// No profile exists: initialise one, then finish with `after_auto_init`.
    AutoInit,
}

/// The first part of config resolution, in priority order: an explicit
/// `--config` (which must exist), `dotman.yaml` in the working directory,
/// the active profile's existing config, and otherwise a clone of the active
/// profile or a first initialisation; `--no-init` refuses those last two,
/// which would write to disk, and nothing else.
pub open spec fn resolve_start_ok(
    r: ResolveStep,
    explicit: Option<ConfigFile>,
    cwd_has_config: bool,
    no_init: bool,
    active: Result<Option<ConfigFile>, String>,
) -> bool {
    match explicit {
        Some(f) => if f.exists {
            r == ResolveStep::Done(Ok(ConfigSource::Direct(f.path)))
        } else {
            r matches ResolveStep::Done(Err(e)) && e@ == "config file not found: "@ + f.path@
        },
        None => if cwd_has_config {
            r matches ResolveStep::Done(Ok(ConfigSource::Direct(p))) && p@ == "dotman.yaml"@
        } else {
            match active {
                Err(e) => r == ResolveStep::Done(Err(e)),
                Ok(Some(f)) => if f.exists {
                    r == ResolveStep::Done(Ok(ConfigSource::Profile(f.path)))
                } else if no_init {
                    r matches ResolveStep::Done(Err(e)) && e@ == "no config found and --no-init is set"@
                } else {
                    r == ResolveStep::CloneProfile(f.path)
                },
                Ok(None) => if no_init {
                    r matches ResolveStep::Done(Err(e)) && e@ == "no config found and --no-init is set"@
                } else {
                    r == ResolveStep::AutoInit
                },
            }
        },
    }
}

/// Starts config resolution from what was found on disk.
pub fn resolve_config(
    explicit: Option<ConfigFile>,
    cwd_has_config: bool,
    no_init: bool,
    active: Result<Option<ConfigFile>, String>,
) -> (r: ResolveStep)
    ensures
        resolve_start_ok(r, explicit, cwd_has_config, no_init, active),
{
    match explicit {
        Some(f) => {
            if f.exists {
                ResolveStep::Done(Ok(ConfigSource::Direct(f.path)))
            } else {
                let mut e = String::from_str("config file not found: ");
                e.append(f.path.as_str());
                ResolveStep::Done(Err(e))
            }
        },
        None => {
            if cwd_has_config {
                ResolveStep::Done(Ok(ConfigSource::Direct(String::from_str("dotman.yaml"))))
            } else {
                match active {
                    Err(e) => ResolveStep::Done(Err(e)),
                    Ok(Some(f)) => {
                        if f.exists {
                            ResolveStep::Done(Ok(ConfigSource::Profile(f.path)))
                        } else if no_init {
                            ResolveStep::Done(Err(String::from_str("no config found and --no-init is set")))
                        } else {
                            ResolveStep::CloneProfile(f.path)
                        }
                    },
                    Ok(None) => if no_init {
                        ResolveStep::Done(Err(String::from_str("no config found and --no-init is set")))
                    } else {
                        ResolveStep::AutoInit
                    },
                }
            }
        },
    }
}

/// Finishes resolution after cloning the active profile: a failed clone is
/// reported; else the config must now be there.
pub fn after_clone(config_path: String, clone: Result<(), String>, exists_now: bool) -> (r: Result<
    ConfigSource,
    String,
>)
    ensures
        match clone {
            Err(e) => r matches Err(m) && m@ == "failed to clone profile repo: "@ + e@,
            Ok(()) => if exists_now {
                r == Ok::<ConfigSource, String>(ConfigSource::Profile(config_path))
            } else {
                r matches Err(m) && m@ == "profile checkout exists but "@ + DEFAULT_CONFIG_FILE@
                    + " not found inside"@
            },
        },
{
    match clone {
        Err(e) => {
            let mut m = String::from_str("failed to clone profile repo: ");
            m.append(e.as_str());
            Err(m)
        },
        Ok(()) => {
            if exists_now {
                Ok(ConfigSource::Profile(config_path))
            } else {
                let mut m = String::from_str("profile checkout exists but ");
                m.append(DEFAULT_CONFIG_FILE);
                m.append(" not found inside");
                Err(m)
            }
        },
    }
}

/// Finishes resolution after first initialisation: the new active profile's
/// config must be there.
pub fn after_auto_init(init: Result<(), String>, active: Result<Option<ConfigFile>, String>) -> (r:
    Result<ConfigSource, String>)
    ensures
        match init {
            Err(e) => r matches Err(m) && m@ == "auto-init failed: "@ + e@,
            Ok(()) => match active {
                Ok(Some(f)) => if f.exists {
                    r == Ok::<ConfigSource, String>(ConfigSource::Profile(f.path))
                } else {
                    r matches Err(m) && m@ == "init completed but config not found at "@ + f.path@
                },
                Ok(None) => r matches Err(m) && m@ == "init completed but no active profile"@,
                Err(e) => r matches Err(m) && m@ == "failed to read profile after init: "@ + e@,
            },
        },
{
    match init {
        Err(e) => {
            let mut m = String::from_str("auto-init failed: ");
            m.append(e.as_str());
            Err(m)
        },
        Ok(()) => match active {
            Ok(Some(f)) => {
                if f.exists {
                    Ok(ConfigSource::Profile(f.path))
                } else {
                    let mut m = String::from_str("init completed but config not found at ");
                    m.append(f.path.as_str());
                    Err(m)
                }
            },
            Ok(None) => Err(String::from_str("init completed but no active profile")),
            Err(e) => {
                let mut m = String::from_str("failed to read profile after init: ");
                m.append(e.as_str());
                Err(m)
            },
        },
    }
}

/// Whether the active profile's checkout is pulled before use: it must exist,
/// want syncing, and be a git checkout.
pub fn should_sync(profile: Option<&Profile>, checkout_exists: bool, git_dir_exists: bool) -> (r:
    bool)
    ensures
        r == match profile {
            Some(p) => p.auto_sync && checkout_exists && git_dir_exists,
            None => false,
        },
{
    match profile {
        Some(p) => p.auto_sync && checkout_exists && git_dir_exists,
        None => false,
    }
}

/// A `[Y/n]` answer: yes when empty, or `y` or `yes` in any case.
pub open spec fn default_yes_answer(answer: Seq<char>) -> bool {
    let a = crate::text::lowercase(crate::text::trim(answer));
    a.len() == 0 || a == "y"@ || a == "yes"@
}

/// Reads a `[Y/n]` answer.
pub fn accepts_default_yes(answer: &str) -> (r: bool)
    ensures
        r == default_yes_answer(answer@),
{
    let t = crate::text::string_of(crate::text::trim_chars(crate::text::chars_of(answer).as_slice()).as_slice());
    let a = crate::text::to_lowercase(t.as_str());
    a.as_str().is_empty() || crate::text::str_eq(a.as_str(), "y") || crate::text::str_eq(a.as_str(), "yes")
}

/// What making sure git is there leads to.
#[derive(Debug)]
pub enum GitStep {
    /// git is installed.
    Ready,
    /// git is missing and may not be installed here.
    Fail(String),
    /// Install git without asking (`--bootstrap-git`), then finish with
    /// `after_git_install`.
    Install,
    /// Ask whether to install git, then finish with `after_git_prompt`.
    Ask,
}

/// Decides what to do about git: nothing when it is installed; in headless
/// mode, install it only under `--bootstrap-git` and fail otherwise; else
/// install it under `--bootstrap-git` or ask first.
pub fn git_step(installed: bool, headless: bool, bootstrap_git: bool) -> (r: GitStep)
    ensures
        installed ==> r is Ready,
        !installed && headless && !bootstrap_git ==> (r matches GitStep::Fail(m) && m@
            == "git is not installed. Run with --bootstrap-git to auto-install, or install git manually."@),
        !installed && bootstrap_git ==> r is Install,
        !installed && !headless && !bootstrap_git ==> r is Ask,
{
    if installed {
        GitStep::Ready
    } else if headless && !bootstrap_git {
        GitStep::Fail(String::from_str("git is not installed. Run with --bootstrap-git to auto-install, or install git manually."))
    } else if bootstrap_git {
        GitStep::Install
    } else {
        GitStep::Ask
    }
}

/// The answer to "Install git now?": go on to install (`Ok`), or the error
/// for a refusal.
pub fn after_git_prompt(answer: &str) -> (r: Result<(), String>)
    ensures
        default_yes_answer(answer@) <==> r is Ok,
        r matches Err(e) ==> e@ == "git is required. Please install git and try again."@,
{
    if accepts_default_yes(answer) {
        Ok(())
    } else {
        Err(String::from_str("git is required. Please install git and try again."))
    }
}

/// What an attempt to install git came to: done when it installed git; when
/// no way to install it was found, an error that depends on whether the user
/// was asked first; the attempt's own error otherwise.
pub fn after_git_install(result: Result<bool, String>, asked: bool) -> (r: Result<(), String>)
    ensures
        match result {
            Ok(true) => r is Ok,
            Ok(false) => r matches Err(e) && e@ == (if asked {
                "could not auto-install git. Please install git and try again."@
            } else {
                "git is required. Please install git and try again."@
            }),
            Err(m) => r matches Err(e) && e@ == m@,
        },
{
    match result {
        Ok(true) => Ok(()),
        Ok(false) => Err(
            if asked {
                String::from_str("could not auto-install git. Please install git and try again.")
            } else {
                String::from_str("git is required. Please install git and try again.")
            },
        ),
        Err(m) => Err(m),
    }
}

/// How a profile checkout is obtained.
#[derive(Debug)]
pub enum CheckoutStep {
    /// Nothing is at the path: clone the repo there.
    Clone,
    /// A git checkout is at the path: check its remote with `check_remote`,
    /// then pull it.
    Reuse,
    /// The path is taken by something else.
    Fail(String),
}

/// Decides between cloning into `checkout` and reusing what is there.
pub fn checkout_step(checkout: &str, exists: bool, git_dir_exists: bool) -> (r: CheckoutStep)
    ensures
        !exists ==> r is Clone,
        exists && git_dir_exists ==> r is Reuse,
        exists && !git_dir_exists ==> (r matches CheckoutStep::Fail(m) && m@
            == "path exists but is not a git repository: "@ + checkout@),
{
    if !exists {
        CheckoutStep::Clone
    } else if git_dir_exists {
        CheckoutStep::Reuse
    } else {
        let mut m = String::from_str("path exists but is not a git repository: ");
        m.append(checkout);
        CheckoutStep::Fail(m)
    }
}

/// The origin URL that `git remote get-url origin` printed, as compared with
/// a repo: trimmed, without trailing `.git`.
pub open spec fn remote_key(output: Seq<char>) -> Seq<char> {
    crate::text::strip_suffixes(crate::text::trim(output), ".git"@)
}

/// Checks that an existing checkout's origin (`remote_output`, what git
/// printed) is `repo`, both taken without trailing `.git`.
pub fn check_remote(remote_output: &str, repo: &str) -> (r: Result<(), String>)
    ensures
        remote_key(remote_output@) == crate::text::strip_suffixes(repo@, ".git"@) <==> r is Ok,
        r matches Err(e) ==> e@ == "existing checkout remote '"@ + remote_key(remote_output@)
            + "' does not match target repo '"@ + crate::text::strip_suffixes(repo@, ".git"@) + "'"@,
{
    let git = crate::text::chars_of(".git");
    proof {
        reveal_strlit(".git");
    }
    let out = crate::text::chars_of(remote_output);
    let trimmed = crate::text::trim_chars(&out);
    let remote = crate::text::trim_end_matches(&trimmed, &git);
    let expected = crate::text::trim_end_matches(&crate::text::chars_of(repo), &git);
    if crate::text::chars_eq(&remote, &expected) {
        Ok(())
    } else {
        let mut e = String::from_str("existing checkout remote '");
        e.append(crate::text::string_of(&remote).as_str());
        e.append("' does not match target repo '");
        e.append(crate::text::string_of(&expected).as_str());
        e.append("'");
        Err(e)
    }
}

/// `cfg` with the profile `name` added or replaced, and made the default;
/// the other profiles are kept.
pub fn with_profile(cfg: ProfileConfig, name: &str, repo: &str, branch: &str, path: &str) -> (r:
    ProfileConfig)
    requires
        cfg.wf(),
    ensures
        r.wf(),
        r.default_profile@ == name@,
        forall|k: Seq<char>|
            k != name@ ==> #[trigger] assoc_get(r.profiles@, k) == assoc_get(cfg.profiles@, k),
        assoc_get(r.profiles@, name@) matches Some(p) && p.repo@ == repo@ && p.branch@ == branch@
            && p.path@ == path@ && p.config@ == DEFAULT_CONFIG_FILE@ && p.auto_sync,
{
    let profile = Profile {
        repo: String::from_str(repo),
        branch: String::from_str(branch),
        path: String::from_str(path),
        config: String::from_str(DEFAULT_CONFIG_FILE),
        auto_sync: true,
    };
    let mut profiles = cfg.profiles;
    let key = String::from_str(name);
    crate::sorted_map::sorted_insert(&mut profiles, key, profile);
    ProfileConfig { default_profile: String::from_str(name), profiles }
}

/// One line of the doctor report.
#[derive(Debug)]
pub struct Diagnostic {
    pub ok: bool,
    pub message: String,
}

/// A file looked for: found at a path, absent at a path, or not checkable.
#[derive(Debug)]
pub enum FileCheck {
    Found(String),
    Absent(String),
    Error(String),
}

/// What the doctor looked at.
#[derive(Debug)]
pub struct DoctorFacts {
    pub git_installed: bool,
    /// The profile config file.
    pub profile_config: FileCheck,
    /// The active profile's config file; `None` when no profile is active.
    pub active_config: Option<FileCheck>,
    pub brew_available: bool,
}

/// The doctor report, line by line: git, the profile config, the active
/// profile's config, and Homebrew (which is informational and never fails).
pub open spec fn doctor_spec(f: DoctorFacts) -> Seq<(bool, Seq<char>)> {
    seq![
        if f.git_installed {
            (true, "git is installed"@)
        } else {
            (false, "git is not installed"@)
        },
        match f.profile_config {
            FileCheck::Found(p) => (true, "profile config found at "@ + p@),
            FileCheck::Absent(p) => (false, "profile config not found at "@ + p@),
            FileCheck::Error(e) => (false, "cannot check profile config: "@ + e@),
        },
        match f.active_config {
            Some(FileCheck::Found(p)) => (true, "active profile points to config: "@ + p@),
            Some(FileCheck::Absent(p)) => (
                false,
                "active profile configured but config not found at "@ + p@,
            ),
            Some(FileCheck::Error(e)) => (false, "failed to read profile: "@ + e@),
            None => (false, "no active profile configured"@),
        },
        if f.brew_available {
            (true, "Homebrew available"@)
        } else {
            (true, "Homebrew not available"@)
        },
    ]
}

/// The report lines as (ok, message) pairs.
pub open spec fn diagnostics_view(d: Seq<Diagnostic>) -> Seq<(bool, Seq<char>)> {
    Seq::new(d.len(), |i: int| (d[i].ok, d[i].message@))
}

fn with_text(ok: bool, prefix: &str, tail: &str) -> (r: Diagnostic)
    ensures
        r.ok == ok,
        r.message@ == prefix@ + tail@,
{
    let mut m = String::from_str(prefix);
    m.append(tail);
    Diagnostic { ok, message: m }
}

/// The doctor report for what was found.
pub fn doctor_report(facts: &DoctorFacts) -> (r: Vec<Diagnostic>)
    ensures
        diagnostics_view(r@) == doctor_spec(*facts),
{
    let mut r: Vec<Diagnostic> = Vec::new();
    if facts.git_installed {
        r.push(Diagnostic { ok: true, message: String::from_str("git is installed") });
    } else {
        r.push(Diagnostic { ok: false, message: String::from_str("git is not installed") });
    }
    match &facts.profile_config {
        FileCheck::Found(p) => r.push(with_text(true, "profile config found at ", p.as_str())),
        FileCheck::Absent(p) => r.push(with_text(false, "profile config not found at ", p.as_str())),
        FileCheck::Error(e) => r.push(with_text(false, "cannot check profile config: ", e.as_str())),
    }
    match &facts.active_config {
        Some(FileCheck::Found(p)) => r.push(
            with_text(true, "active profile points to config: ", p.as_str()),
        ),
        Some(FileCheck::Absent(p)) => r.push(
            with_text(false, "active profile configured but config not found at ", p.as_str()),
        ),
        Some(FileCheck::Error(e)) => r.push(with_text(false, "failed to read profile: ", e.as_str())),
        None => r.push(
            Diagnostic { ok: false, message: String::from_str("no active profile configured") },
        ),
    }
    if facts.brew_available {
        r.push(Diagnostic { ok: true, message: String::from_str("Homebrew available") });
    } else {
        r.push(Diagnostic { ok: true, message: String::from_str("Homebrew not available") });
    }
    assert(diagnostics_view(r@) =~= doctor_spec(*facts));
    r
}

} // verus!
