use dotman::sorted_map::sorted_insert;
use dotman::add::{
    answer_or_default, attempt_outcome, build_config_toml, build_dep_toml, check_answer,
    check_command_unused, check_config_source, check_config_target, check_dep_name,
    check_source_url, installer_attempt, merge_manifest, param_prompts, param_value, parse_kind,
    install_dir_prompts, parse_platforms, script_args, toml_value_str,
    validation_failure, yes_no, yes_no_hint,
    AttemptOutcome, Check, FileKind, Installer, ParamValue,
};

#[test]
fn installer_is_chosen_by_number_or_name() {
    assert_eq!(installer_attempt(1, " 3 "), Ok(Some(Installer::Cask)));
    assert_eq!(installer_attempt(1, "download_binary"), Ok(Some(Installer::DownloadBinary)));
    assert_eq!(installer_attempt(2, "9"), Ok(None));
    assert_eq!(
        installer_attempt(3, "9"),
        Err("invalid installer selection (max attempts reached)".to_string())
    );
}

#[test]
fn invalid_answers_are_retried_until_the_third() {
    assert!(matches!(attempt_outcome(1, None), AttemptOutcome::Accept));
    match attempt_outcome(2, Some("must not be empty".into())) {
        AttemptOutcome::Retry(m) => assert_eq!(m, "must not be empty"),
        _ => panic!("expected retry"),
    }
    match attempt_outcome(3, Some("must not be empty".into())) {
        AttemptOutcome::GiveUp(m) => assert_eq!(m, "must not be empty (max attempts reached)"),
        _ => panic!("expected give up"),
    }
}

#[test]
fn answer_checks_match_their_messages() {
    assert_eq!(check_answer(Check::NonEmpty, ""), Err("must not be empty".to_string()));
    assert_eq!(check_answer(Check::HttpsUrl, "http://x"), Err("must start with https://".to_string()));
    assert_eq!(check_answer(Check::InstallPath, "~/.local/bin/x"), Ok(()));
    assert_eq!(
        check_answer(Check::ArchiveKind, "rar"),
        Err("must be one of: raw, tar.gz, tar.xz, zip".to_string())
    );
    assert_eq!(answer_or_default("  \n", "latest"), "latest");
    assert_eq!(answer_or_default(" 1.2 ", "latest"), "1.2");
    assert!(yes_no("Y/n", true));
    assert!(!yes_no("No", true));
    // A blank line answers with the shown hint, which for a default of no
    // still starts with `y`.
    assert!(yes_no("y/N", false));
    assert!(!yes_no("n", false));
    assert!(yes_no("yes", false));
}

#[test]
fn dependency_names_and_commands_are_checked() {
    let existing = vec!["fish".to_string()];
    assert_eq!(check_dep_name("", &existing), Err("name must not be empty".to_string()));
    assert_eq!(
        check_dep_name("a.b", &existing),
        Err("name must not contain whitespace, [, ], or .".to_string())
    );
    assert_eq!(
        check_dep_name("fish", &existing),
        Err("dependency 'fish' already exists in deps.toml".to_string())
    );
    assert_eq!(check_dep_name("zoxide", &existing), Ok(()));
    let deps = vec![("bat".to_string(), "bat".to_string()), ("fd".to_string(), "fd".to_string())];
    assert_eq!(
        check_command_unused("fd", "fd-find", &deps),
        Err("command 'fd' is already used by dependency 'fd'".to_string())
    );
    assert_eq!(check_command_unused("fd", "fd", &deps), Ok(()));
    assert_eq!(check_source_url(""), Ok(None));
    assert_eq!(check_source_url("http://x"), Err("source URL must start with https://".to_string()));
}

#[test]
fn config_entries_are_checked() {
    let sources = vec!["config/fish".to_string()];
    assert_eq!(
        check_config_source("../x", &sources),
        Err("source must be a relative path (no /, ~, $, ..)".to_string())
    );
    assert_eq!(
        check_config_source("config/fish", &sources),
        Err("source 'config/fish' already in dotfiles.toml".to_string())
    );
    assert_eq!(check_config_target("x", &vec![]), Err("target must start with ~ or /".to_string()));
    assert_eq!(parse_kind("DIR"), Ok(FileKind::Dir));
    assert_eq!(parse_kind("pipe"), Err("invalid kind: pipe (must be file or dir)".to_string()));
    assert_eq!(parse_platforms("all"), Ok(vec![]));
    assert_eq!(parse_platforms(" mac, linux ,"), Ok(vec!["mac".to_string(), "linux".to_string()]));
    assert_eq!(
        parse_platforms("mac,windows"),
        Err("invalid platform: windows (must be mac or linux)".to_string())
    );
}

#[test]
fn parameter_table_stays_in_key_order() {
    let mut table: Vec<(String, ParamValue)> = Vec::new();
    for p in param_prompts(Installer::RepoPackage) {
        let answer = if p.list { "main, extra" } else { "v" };
        sorted_insert(&mut table, p.key.to_string(), param_value(answer, p.list));
    }
    let keys: Vec<&str> = table.iter().map(|(k, _)| k.as_str()).collect();
    assert_eq!(keys, vec!["package", "repo_channel", "repo_components", "repo_key_url", "repo_url"]);
    sorted_insert(&mut table, "package".into(), ParamValue::Text("fish".into()));
    assert_eq!(table.len(), 5);
    assert_eq!(toml_value_str(&table[0].1), "\"fish\"");
    assert_eq!(toml_value_str(&table[2].1), "[\"main\", \"extra\"]");
    assert!(script_args("").is_none());
    match script_args(" --a  b ") {
        Some(ParamValue::List(items)) => assert_eq!(items, vec!["--a", "b"]),
        _ => panic!("expected a list"),
    }
}

#[test]
fn dependency_toml_lists_the_table_and_parameters() {
    let params = vec![("package".to_string(), ParamValue::Text("fish".into()))];
    let text = build_dep_toml("fish", "fish", Installer::Brew, "latest", Some("https://fishshell.com"), &params, "mac", "arm64");
    assert_eq!(
        text,
        "[deps.fish]\ncommand = \"fish\"\n\n[deps.fish.mac.arm64]\ninstaller = \"brew\"\nversion = \"latest\"\nsource = \"https://fishshell.com\"\n\n[deps.fish.mac.arm64.params]\npackage = \"fish\"\n\n"
    );
    let bare = build_dep_toml("jq", "jq", Installer::System, "1.7", None, &vec![], "linux", "x86_64");
    assert_eq!(bare, "[deps.jq]\ncommand = \"jq\"\n\n[deps.jq.linux.x86_64]\ninstaller = \"system\"\nversion = \"1.7\"\n\n");
}

#[test]
fn config_toml_lists_only_what_differs_from_defaults() {
    let text = build_config_toml("config/rg", "~/.ripgreprc", FileKind::File, &vec![], true, None);
    assert_eq!(text, "[[files]]\nsource = \"config/rg\"\ntarget = \"~/.ripgreprc\"\nkind = \"file\"\n\n");
    let text = build_config_toml("config/x", "~/x", FileKind::Dir, &vec!["mac".to_string()], false, Some("n"));
    assert_eq!(
        text,
        "[[files]]\nsource = \"config/x\"\ntarget = \"~/x\"\nkind = \"dir\"\nplatforms = [\"mac\"]\nenabled = false\nnotes = \"n\"\n\n"
    );
}

#[test]
fn manifest_text_is_appended_after_a_blank_line() {
    assert_eq!(merge_manifest("  \n", "[x]\n"), "[x]\n");
    assert_eq!(merge_manifest("[a]\n", "[x]\n"), "[a]\n\n[x]\n");
    assert_eq!(
        validation_failure(&vec!["one".to_string(), "two".to_string()]),
        "validation failed:\nerror: one\nerror: two"
    );
}

#[test]
fn yes_no_hint_shows_the_default() {
    assert_eq!(yes_no_hint(true), "Y/n");
    assert_eq!(yes_no_hint(false), "y/N");
}

#[test]
fn install_dir_prompts_ask_source_then_destination() {
    let prompts = install_dir_prompts();
    assert_eq!(prompts.len(), 2);
    assert_eq!(prompts[0].key, "install_dir_from");
    assert_eq!(prompts[0].message, "install_dir_from:");
    assert!(matches!(prompts[0].check, Check::NonEmpty));
    assert_eq!(prompts[1].key, "install_dir_to");
    assert_eq!(prompts[1].message, "install_dir_to (under ~/.local):");
    assert!(matches!(prompts[1].check, Check::InstallPath));
    assert!(!prompts[1].list);
}
