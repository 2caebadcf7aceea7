//! Named profiles: which dotfiles repository to check out, where, and which
//! config file inside it to read.

use vstd::prelude::*;
use crate::path::{expand_home, expand_home_spec, join, join_path};
use crate::sorted_map::{keys_ascending, keys_in_order, sorted_insert, text_lt};
use crate::text::{assoc_get, lookup, opt_view};

verus! {

pub const DEFAULT_REPO: &'static str = "https://github.com/tabsp/dotfiles.git";

pub const DEFAULT_BRANCH: &'static str = "main";

pub const DEFAULT_PROFILE_NAME: &'static str = "main";

pub const DEFAULT_CONFIG_FILE: &'static str = "dotman.yaml";

/// A single named profile.
#[derive(Debug)]
pub struct Profile {
    /// Git remote URL.
    pub repo: String,
    /// Git branch to track.
    pub branch: String,
    /// Where the repository is checked out (may start with `~/`).
    pub path: String,
    /// Name of the config file inside the repository.
    pub config: String,
    /// Whether to pull before each plan or deploy.
    pub auto_sync: bool,
}

/// All profiles, by name, and the one in use.
#[derive(Debug)]
pub struct ProfileConfig {
    pub default_profile: String,
    /// Profiles keyed by name; a name occurs once.
    pub profiles: Vec<(String, Profile)>,
}

impl Profile {
    /// A copy of the profile.
    pub fn copy(&self) -> (r: Profile)
        ensures
            r == *self,
    {
        Profile {
            repo: self.repo.clone(),
            branch: self.branch.clone(),
            path: self.path.clone(),
            config: self.config.clone(),
            auto_sync: self.auto_sync,
        }
    }

    /// The checkout directory, `~/` expanded under `home`.
    pub fn checkout_path(&self, home: Option<&str>) -> (r: String)
        ensures
            r@ == expand_tilde_spec(self.path@, opt_view(home)),
    {
        expand_tilde(self.path.as_str(), home)
    }

    /// The config file inside the checkout.
    pub fn config_path(&self, home: Option<&str>) -> (r: String)
        ensures
            r@ == join_path(expand_tilde_spec(self.path@, opt_view(home)), self.config@),
    {
        let dir = self.checkout_path(home);
        join(dir.as_str(), self.config.as_str())
    }
}

impl ProfileConfig {
    /// Profiles are kept in name order, as in a sorted map; so no name
    /// occurs twice.
    pub open spec fn wf(&self) -> bool {
        keys_ascending(self.profiles@)
    }

    /// Checks that the profiles are in strictly increasing name order.
    pub fn names_in_order(&self) -> (r: bool)
        ensures
            r == self.wf(),
    {
        keys_in_order(&self.profiles)
    }
}

/// The checkout location of a new profile.
pub open spec fn default_checkout_path_spec(name: Seq<char>) -> Seq<char> {
    "~/.local/share/dotman/repos/"@ + name
}

fn default_checkout_path(profile_name: &str) -> (r: String)
    ensures
        r@ == default_checkout_path_spec(profile_name@),
{
    let mut s = String::from_str("~/.local/share/dotman/repos/");
    s.append(profile_name);
    s
}

/// Where a profile is checked out: the explicit path if given, else the path
/// of the existing profile of that name, else the default location.
pub open spec fn checkout_path_choice(
    explicit_path: Option<Seq<char>>,
    existing: Option<Profile>,
    name: Seq<char>,
) -> Seq<char> {
    match explicit_path {
        Some(p) => p,
        None => match existing {
            Some(pr) => pr.path@,
            None => default_checkout_path_spec(name),
        },
    }
}

/// The profile of that name in `cfg`, if `cfg` is there.
pub open spec fn existing_profile(cfg: Option<&ProfileConfig>, name: Seq<char>) -> Option<Profile> {
    match cfg {
        Some(c) => assoc_get(c.profiles@, name),
        None => None,
    }
}

/// Resolves a checkout path from an explicit override, an existing profile,
/// or the default location for a new profile.
pub fn resolve_checkout_path(
    explicit_path: Option<&str>,
    profile_cfg: Option<&ProfileConfig>,
    profile_name: &str,
) -> (r: String)
    ensures
        r@ == checkout_path_choice(
            opt_view(explicit_path),
            existing_profile(profile_cfg, profile_name@),
            profile_name@,
        ),
{
    match explicit_path {
        Some(p) => String::from_str(p),
        None => {
            let found = match profile_cfg {
                Some(cfg) => lookup(&cfg.profiles, profile_name),
                None => None,
            };
            match found {
                Some(profile) => profile.path.clone(),
                None => default_checkout_path(profile_name),
            }
        },
    }
}

/// The built-in configuration: one profile, `main`, tracking the default
/// repository.
pub open spec fn is_default_config(cfg: ProfileConfig) -> bool {
    &&& cfg.default_profile@ == DEFAULT_PROFILE_NAME@
    &&& cfg.profiles@.len() == 1
    &&& cfg.profiles@[0].0@ == DEFAULT_PROFILE_NAME@
    &&& cfg.profiles@[0].1.repo@ == DEFAULT_REPO@
    &&& cfg.profiles@[0].1.branch@ == DEFAULT_BRANCH@
    &&& cfg.profiles@[0].1.path@ == default_checkout_path_spec(DEFAULT_PROFILE_NAME@)
    &&& cfg.profiles@[0].1.config@ == DEFAULT_CONFIG_FILE@
    &&& cfg.profiles@[0].1.auto_sync
}

/// Builds the default profile config (no disk I/O).
pub fn default_config() -> (r: ProfileConfig)
    ensures
        is_default_config(r),
        r.wf(),
{
    let profile = Profile {
        repo: String::from_str(DEFAULT_REPO),
        branch: String::from_str(DEFAULT_BRANCH),
        path: resolve_checkout_path(None, None, DEFAULT_PROFILE_NAME),
        config: String::from_str(DEFAULT_CONFIG_FILE),
        auto_sync: true,
    };
    let mut profiles: Vec<(String, Profile)> = Vec::new();
    profiles.push((String::from_str(DEFAULT_PROFILE_NAME), profile));
    ProfileConfig { default_profile: String::from_str(DEFAULT_PROFILE_NAME), profiles }
}

/// The active profile of a loaded config: the one named by `default_profile`.
pub fn active_profile(cfg: Option<&ProfileConfig>) -> (r: Option<Profile>)
    ensures
        r == match cfg {
            Some(c) => assoc_get(c.profiles@, c.default_profile@),
            None => None::<Profile>,
        },
{
    match cfg {
        Some(c) => match lookup(&c.profiles, c.default_profile.as_str()) {
            Some(p) => Some(p.copy()),
            None => None,
        },
        None => None,
    }
}

/// The config file of the active profile, if any.
pub fn active_config_path(cfg: Option<&ProfileConfig>, home: Option<&str>) -> (r: Option<String>)
    ensures
        match cfg {
            Some(c) => match assoc_get(c.profiles@, c.default_profile@) {
                Some(p) => r is Some && r->0@ == join_path(
                    expand_tilde_spec(p.path@, opt_view(home)),
                    p.config@,
                ),
                None => r is None,
            },
            None => r is None,
        },
{
    match active_profile(cfg) {
        Some(p) => Some(p.config_path(home)),
        None => None,
    }
}

/// `~/` expanded under `home`; the path unchanged when it cannot be.
pub open spec fn expand_tilde_spec(s: Seq<char>, home: Option<Seq<char>>) -> Seq<char> {
    match expand_home_spec(s, home) {
        Ok(p) => p,
        Err(_) => s,
    }
}

/// Replaces a leading `~/` with the home directory.
pub fn expand_tilde(s: &str, home: Option<&str>) -> (r: String)
    ensures
        r@ == expand_tilde_spec(s@, opt_view(home)),
{
    match expand_home(s, home) {
        Ok(p) => p,
        Err(_) => String::from_str(s),
    }
}

/// `p` is a new profile `name` for `repo`: on the default branch, config
/// file and checkout path, synced automatically.
pub open spec fn is_new_profile(p: Profile, name: Seq<char>, repo: Seq<char>) -> bool {
    &&& p.repo@ == repo
    &&& p.branch@ == DEFAULT_BRANCH@
    &&& p.path@ == default_checkout_path_spec(name)
    &&& p.config@ == DEFAULT_CONFIG_FILE@
    &&& p.auto_sync
}

/// `c` is `cfg` with a new profile `name` for `repo` put in its place in
/// name order.
pub open spec fn added(cfg: ProfileConfig, name: Seq<char>, repo: Seq<char>, c: ProfileConfig) -> bool {
    &&& c.default_profile == cfg.default_profile
    &&& exists|j: int|
        0 <= j <= cfg.profiles@.len() && c.profiles@ == cfg.profiles@.insert(j, c.profiles@[j])
            && c.profiles@[j].0@ == name && is_new_profile(c.profiles@[j].1, name, repo)
}

/// `c` is `cfg` without its profile `name`; a removed default falls back to
/// the first remaining profile in name order, or `main` when none remain.
pub open spec fn removed(cfg: ProfileConfig, name: Seq<char>, c: ProfileConfig) -> bool {
    &&& exists|i: int|
        0 <= i < cfg.profiles@.len() && cfg.profiles@[i].0@ == name && c.profiles@ == cfg.profiles@.remove(i)
    &&& if cfg.default_profile@ == name {
        if c.profiles@.len() > 0 {
            c.default_profile@ == c.profiles@[0].0@
        } else {
            c.default_profile@ == DEFAULT_PROFILE_NAME@
        }
    } else {
        c.default_profile == cfg.default_profile
    }
}

/// Adds a profile tracking `repo` on the default branch, checked out where
/// `resolve_checkout_path` says; an error when the name is taken.
pub fn add_profile(cfg: ProfileConfig, name: &str, repo: &str) -> (r: Result<ProfileConfig, String>)
    requires
        cfg.wf(),
    ensures
        assoc_get(cfg.profiles@, name@) is Some ==> (r matches Err(e) && e@ == "profile '"@ + name@
            + "' already exists"@),
        assoc_get(cfg.profiles@, name@) is None ==> (r matches Ok(c) && c.wf() && added(cfg, name@, repo@, c)),
{
    if lookup(&cfg.profiles, name).is_some() {
        let mut e = String::from_str("profile '");
        e.append(name);
        e.append("' already exists");
        return Err(e);
    }
    let path = resolve_checkout_path(None, Some(&cfg), name);
    let profile = Profile {
        repo: String::from_str(repo),
        branch: String::from_str(DEFAULT_BRANCH),
        path,
        config: String::from_str(DEFAULT_CONFIG_FILE),
        auto_sync: true,
    };
    let ProfileConfig { default_profile, profiles } = cfg;
    let ghost before = profiles@;
    let mut profiles = profiles;
    let key = String::from_str(name);
    sorted_insert(&mut profiles, key, profile);
    proof {
        let j = choose|j: int| 0 <= j <= before.len() && profiles@ == before.insert(j, (key, profile));
        assert(profiles@[j] == (key, profile));
    }
    Ok(ProfileConfig { default_profile, profiles })
}

/// Removes a profile; when it was the default, the first remaining profile
/// becomes the default (`main` when none remain). An error when there is no
/// such profile.
pub fn remove_profile(cfg: ProfileConfig, name: &str) -> (r: Result<ProfileConfig, String>)
    requires
        cfg.wf(),
    ensures
        assoc_get(cfg.profiles@, name@) is None ==> (r matches Err(e) && e@ == "profile '"@ + name@
            + "' not found"@),
        assoc_get(cfg.profiles@, name@) is Some ==> (r matches Ok(c) && c.wf() && removed(cfg, name@, c)),
{
    let i = match crate::text::find_key(&cfg.profiles, name) {
        Some(i) => {
            proof {
                crate::text::lemma_assoc_get_index(cfg.profiles@, name@, i as int);
            }
            i
        },
        None => {
            proof {
                crate::text::lemma_assoc_get_absent(cfg.profiles@, name@);
            }
            let mut e = String::from_str("profile '");
            e.append(name);
            e.append("' not found");
            return Err(e);
        },
    };
    let ProfileConfig { default_profile, profiles } = cfg;
    let ghost before = profiles@;
    let mut profiles = profiles;
    let _ = profiles.remove(i);
    proof {
        assert forall|a: int, b: int| 0 <= a < b < profiles@.len() implies text_lt(
            #[trigger] profiles@[a].0@,
            #[trigger] profiles@[b].0@,
        ) by {
            let a2 = if a < i { a } else { a + 1 };
            let b2 = if b < i { b } else { b + 1 };
            assert(profiles@[a] == before[a2]);
            assert(profiles@[b] == before[b2]);
            assert(text_lt(before[a2].0@, before[b2].0@));
        }
    }
    let default_profile = if crate::text::str_eq(default_profile.as_str(), name) {
        if profiles.len() > 0 {
            profiles[0].0.clone()
        } else {
            String::from_str(DEFAULT_PROFILE_NAME)
        }
    } else {
        default_profile
    };
    Ok(ProfileConfig { default_profile, profiles })
}

/// Removing a profile right after adding it gives back the profiles as they
/// were, and the default too unless the default named the added profile.
pub proof fn lemma_remove_undoes_add(cfg: ProfileConfig, name: Seq<char>, repo: Seq<char>, c: ProfileConfig, d: ProfileConfig)
    requires
        cfg.wf(),
        assoc_get(cfg.profiles@, name) is None,
        c.wf(),
        added(cfg, name, repo, c),
        removed(c, name, d),
    ensures
        d.profiles@ == cfg.profiles@,
        cfg.default_profile@ != name ==> d.default_profile == cfg.default_profile,
{
    let j = choose|j: int|
        0 <= j <= cfg.profiles@.len() && c.profiles@ == cfg.profiles@.insert(j, c.profiles@[j])
            && c.profiles@[j].0@ == name && is_new_profile(c.profiles@[j].1, name, repo);
    let i = choose|i: int| 0 <= i < c.profiles@.len() && c.profiles@[i].0@ == name && d.profiles@ == c.profiles@.remove(i);
    if i != j {
        if i < j {
            assert(text_lt(c.profiles@[i].0@, c.profiles@[j].0@));
        } else {
            assert(text_lt(c.profiles@[j].0@, c.profiles@[i].0@));
        }
    }
    assert(i == j);
    assert(d.profiles@ =~= cfg.profiles@);
}

} // verus!
