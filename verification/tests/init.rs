use dotman::init::{
    accepts_default_yes, after_auto_init, after_clone, after_git_install, after_git_prompt,
    check_remote, checkout_step, doctor_report, git_step, resolve_config, should_sync,
    with_profile, CheckoutStep, ConfigFile, ConfigSource, DoctorFacts, FileCheck, GitStep,
    ResolveStep,
};
use dotman::profile::{default_config, Profile};

fn file(path: &str, exists: bool) -> ConfigFile {
    ConfigFile { path: path.into(), exists }
}

#[test]
fn explicit_config_wins_and_must_exist() {
    match resolve_config(Some(file("/c.yaml", true)), true, false, Ok(None)) {
        ResolveStep::Done(Ok(ConfigSource::Direct(p))) => assert_eq!(p, "/c.yaml"),
        _ => panic!("expected direct"),
    }
    match resolve_config(Some(file("/c.yaml", false)), true, false, Ok(None)) {
        ResolveStep::Done(Err(e)) => assert_eq!(e, "config file not found: /c.yaml"),
        _ => panic!("expected error"),
    }
}

#[test]
fn working_directory_config_then_no_init_then_profile() {
    match resolve_config(None, true, true, Ok(None)) {
        ResolveStep::Done(Ok(ConfigSource::Direct(p))) => assert_eq!(p, "dotman.yaml"),
        _ => panic!("expected cwd config"),
    }
    match resolve_config(None, false, true, Ok(None)) {
        ResolveStep::Done(Err(e)) => assert_eq!(e, "no config found and --no-init is set"),
        _ => panic!("expected refusal"),
    }
    assert!(matches!(
        resolve_config(None, false, false, Ok(Some(file("/p/dotman.yaml", false)))),
        ResolveStep::CloneProfile(_)
    ));
    assert!(matches!(resolve_config(None, false, false, Ok(None)), ResolveStep::AutoInit));
    match resolve_config(None, false, false, Ok(Some(file("/p/dotman.yaml", true)))) {
        ResolveStep::Done(Ok(source)) => {
            assert!(matches!(source, ConfigSource::Profile(_)));
            assert_eq!(source.path(), "/p/dotman.yaml");
        }
        _ => panic!("expected profile"),
    }
}

#[test]
fn clone_and_init_outcomes_are_reported() {
    assert_eq!(
        after_clone("/p/dotman.yaml".into(), Err("denied".into()), false).unwrap_err(),
        "failed to clone profile repo: denied"
    );
    assert_eq!(
        after_clone("/p/dotman.yaml".into(), Ok(()), false).unwrap_err(),
        "profile checkout exists but dotman.yaml not found inside"
    );
    assert_eq!(
        after_auto_init(Ok(()), Ok(Some(file("/x", false)))).unwrap_err(),
        "init completed but config not found at /x"
    );
    assert_eq!(after_auto_init(Err("offline".into()), Ok(None)).unwrap_err(), "auto-init failed: offline");
    assert_eq!(after_auto_init(Ok(()), Ok(None)).unwrap_err(), "init completed but no active profile");
}

#[test]
fn adding_a_profile_makes_it_default_and_keeps_others() {
    let cfg = with_profile(default_config(), "work", "git@x:y.git", "dev", "~/w");
    assert_eq!(cfg.default_profile, "work");
    assert_eq!(cfg.profiles.len(), 2);
    let work: &Profile = &cfg.profiles.iter().find(|(n, _)| n == "work").unwrap().1;
    assert_eq!(work.branch, "dev");
    assert!(work.auto_sync);
    let again = with_profile(cfg, "main", "r", "b", "p");
    assert_eq!(again.profiles.len(), 2);
    assert_eq!(again.default_profile, "main");
}

#[test]
fn sync_only_for_auto_sync_git_checkouts() {
    let cfg = default_config();
    let p = &cfg.profiles[0].1;
    assert!(should_sync(Some(p), true, true));
    assert!(!should_sync(Some(p), true, false));
    assert!(!should_sync(None, true, true));
}

#[test]
fn doctor_reports_each_check() {
    let report = doctor_report(&DoctorFacts {
        git_installed: false,
        profile_config: FileCheck::Found("/h/.config/dotman/config.toml".into()),
        active_config: None,
        brew_available: false,
    });
    let lines: Vec<(bool, &str)> = report.iter().map(|d| (d.ok, d.message.as_str())).collect();
    assert_eq!(
        lines,
        vec![
            (false, "git is not installed"),
            (true, "profile config found at /h/.config/dotman/config.toml"),
            (false, "no active profile configured"),
            (true, "Homebrew not available"),
        ]
    );
}

#[test]
fn checkout_step_clones_reuses_or_refuses() {
    assert!(matches!(checkout_step("/c", false, false), CheckoutStep::Clone));
    assert!(matches!(checkout_step("/c", true, true), CheckoutStep::Reuse));
    match checkout_step("/c", true, false) {
        CheckoutStep::Fail(m) => assert_eq!(m, "path exists but is not a git repository: /c"),
        other => panic!("unexpected {other:?}"),
    }
}

#[test]
fn check_remote_ignores_git_suffix_and_whitespace() {
    assert!(check_remote("https://github.com/me/dots.git\n", "https://github.com/me/dots").is_ok());
    assert!(check_remote("https://github.com/me/dots", "https://github.com/me/dots.git").is_ok());
    assert_eq!(
        check_remote("https://github.com/other/dots.git\n", "https://github.com/me/dots.git").unwrap_err(),
        "existing checkout remote 'https://github.com/other/dots' does not match target repo 'https://github.com/me/dots'"
    );
}

#[test]
fn init_prompts_default_to_yes() {
    assert!(accepts_default_yes("\n"));
    assert!(accepts_default_yes(" Y \n"));
    assert!(accepts_default_yes("YES"));
    assert!(!accepts_default_yes("n"));
    assert!(!accepts_default_yes("yep"));
}

#[test]
fn git_policy_follows_the_flags() {
    assert!(matches!(git_step(true, true, false), GitStep::Ready));
    match git_step(false, true, false) {
        GitStep::Fail(m) => assert_eq!(
            m,
            "git is not installed. Run with --bootstrap-git to auto-install, or install git manually."
        ),
        other => panic!("unexpected {other:?}"),
    }
    assert!(matches!(git_step(false, true, true), GitStep::Install));
    assert!(matches!(git_step(false, false, true), GitStep::Install));
    assert!(matches!(git_step(false, false, false), GitStep::Ask));
}

#[test]
fn git_install_outcomes() {
    assert_eq!(after_git_prompt("y"), Ok(()));
    assert_eq!(after_git_prompt("no"), Err("git is required. Please install git and try again.".to_string()));
    assert_eq!(after_git_install(Ok(true), true), Ok(()));
    assert_eq!(
        after_git_install(Ok(false), true),
        Err("could not auto-install git. Please install git and try again.".to_string())
    );
    assert_eq!(
        after_git_install(Ok(false), false),
        Err("git is required. Please install git and try again.".to_string())
    );
    assert_eq!(after_git_install(Err("boom".into()), false), Err("boom".to_string()));
}

#[test]
fn no_init_still_uses_an_existing_profile_config() {
    match resolve_config(None, false, true, Ok(Some(file("/p/dotman.yaml", true)))) {
        ResolveStep::Done(Ok(source)) => assert_eq!(source.path(), "/p/dotman.yaml"),
        _ => panic!("expected the profile config"),
    }
    match resolve_config(None, false, true, Ok(Some(file("/p/dotman.yaml", false)))) {
        ResolveStep::Done(Err(e)) => assert_eq!(e, "no config found and --no-init is set"),
        _ => panic!("expected refusal"),
    }
}

#[test]
fn only_a_profile_config_wants_sync() {
    assert!(ConfigSource::Profile("/home/u/.dotfiles/dotman.yaml".to_string()).wants_sync());
    assert!(!ConfigSource::Direct("./dotman.yaml".to_string()).wants_sync());
}
