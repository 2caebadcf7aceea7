use dotman::profile::{
    active_config_path, active_profile, add_profile, default_config, expand_tilde,
    remove_profile, resolve_checkout_path, Profile, ProfileConfig, DEFAULT_PROFILE_NAME,
    DEFAULT_REPO,
};
use std::path::Path;

const HOME: &str = "/home/user";

fn main_profile() -> Profile {
    Profile {
        repo: DEFAULT_REPO.to_string(),
        branch: "main".to_string(),
        path: "~/.local/share/dotman/repos/main".to_string(),
        config: "dotman.yaml".to_string(),
        auto_sync: true,
    }
}

#[test]
fn default_config_is_valid() {
    let cfg = default_config();
    assert_eq!(cfg.default_profile, "main");
    let profile = &cfg.profiles.iter().find(|(n, _)| n == "main").unwrap().1;
    assert_eq!(profile.repo, DEFAULT_REPO);
    assert_eq!(profile.branch, "main");
    assert_eq!(profile.config, "dotman.yaml");
    assert!(profile.auto_sync);
}

#[test]
fn default_profile_and_init_use_the_same_checkout_path() {
    let cfg = default_config();
    let profile = &cfg.profiles.iter().find(|(n, _)| n == DEFAULT_PROFILE_NAME).unwrap().1;
    assert_eq!(profile.path, resolve_checkout_path(None, None, DEFAULT_PROFILE_NAME));
}

#[test]
fn profile_expands_checkout_path() {
    let cp = main_profile().checkout_path(Some(HOME));
    assert!(Path::new(&cp).starts_with(HOME));
}

#[test]
fn expand_tilde_works() {
    assert_eq!(Path::new(&expand_tilde("~/foo", Some(HOME))), Path::new(HOME).join("foo"));
    assert_eq!(expand_tilde("/abs/path", Some(HOME)), "/abs/path");
    assert_eq!(expand_tilde("~/foo", None), "~/foo");
}

#[test]
fn profile_config_path_returns_repo_joined_config() {
    let cp = main_profile().config_path(Some(HOME));
    assert!(Path::new(&cp).ends_with("dotman.yaml"));
    assert_eq!(cp, "/home/user/.local/share/dotman/repos/main/dotman.yaml");
}

#[test]
fn checkout_path_prefers_explicit_then_existing_then_default() {
    let cfg = ProfileConfig {
        default_profile: "work".into(),
        profiles: vec![("work".into(), Profile { path: "/srv/work".into(), ..main_profile() })],
    };
    assert_eq!(resolve_checkout_path(Some("/x"), Some(&cfg), "work"), "/x");
    assert_eq!(resolve_checkout_path(None, Some(&cfg), "work"), "/srv/work");
    assert_eq!(
        resolve_checkout_path(None, Some(&cfg), "home"),
        "~/.local/share/dotman/repos/home"
    );
    assert_eq!(active_profile(Some(&cfg)).unwrap().path, "/srv/work");
    assert_eq!(active_config_path(Some(&cfg), Some(HOME)).as_deref(), Some("/srv/work/dotman.yaml"));
    assert!(active_profile(None).is_none());
}

#[test]
fn add_profile_appends_with_defaults_and_rejects_duplicates() {
    let cfg = add_profile(default_config(), "work", "git@example.com:me/dots.git").unwrap();
    assert_eq!(cfg.default_profile, "main");
    assert_eq!(cfg.profiles.len(), 2);
    let (name, p) = &cfg.profiles[1];
    assert_eq!(name, "work");
    assert_eq!(p.repo, "git@example.com:me/dots.git");
    assert_eq!(p.branch, "main");
    assert_eq!(p.path, "~/.local/share/dotman/repos/work");
    assert_eq!(p.config, "dotman.yaml");
    assert!(p.auto_sync);
    let err = add_profile(cfg, "work", "x").unwrap_err();
    assert_eq!(err, "profile 'work' already exists");
}

#[test]
fn remove_profile_moves_default_and_reports_missing() {
    let cfg = add_profile(default_config(), "work", "r").unwrap();
    let cfg = remove_profile(cfg, "main").unwrap();
    assert_eq!(cfg.default_profile, "work");
    assert_eq!(cfg.profiles.len(), 1);
    let cfg = remove_profile(cfg, "work").unwrap();
    assert_eq!(cfg.default_profile, "main");
    assert!(cfg.profiles.is_empty());
    assert_eq!(remove_profile(cfg, "work").unwrap_err(), "profile 'work' not found");
}

#[test]
fn removing_an_added_profile_restores_the_config() {
    let before = default_config();
    let after = remove_profile(add_profile(default_config(), "work", "r").unwrap(), "work").unwrap();
    assert_eq!(after.default_profile, before.default_profile);
    assert_eq!(after.profiles.len(), before.profiles.len());
    assert_eq!(after.profiles[0].0, before.profiles[0].0);
    assert_eq!(after.profiles[0].1.path, before.profiles[0].1.path);
}

#[test]
fn profiles_stay_in_name_order() {
    let cfg = add_profile(default_config(), "alpha", "r").unwrap();
    let cfg = add_profile(cfg, "zeta", "r").unwrap();
    let names: Vec<&str> = cfg.profiles.iter().map(|(n, _)| n.as_str()).collect();
    assert_eq!(names, vec!["alpha", "main", "zeta"]);
    assert!(cfg.names_in_order());
    let cfg = remove_profile(cfg, "main").unwrap();
    assert_eq!(cfg.default_profile, "alpha");
}
