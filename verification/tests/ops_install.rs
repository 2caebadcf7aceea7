use dotman::ops::install::{
    app_bundle_name, cask_package_from_command, command_for_current_platform,
    detect_presence_with_probe, find,
    font_match_token, resolve_install, InstallCommand, InstallCommandTemplate, InstallPresence,
    PresenceFacts, ToolDb, ToolEntry, ToolRule,
};

fn template(command: &str, platform: Option<&str>, os: &[&str]) -> InstallCommandTemplate {
    InstallCommandTemplate {
        command: command.into(),
        platform: platform.map(|p| p.to_string()),
        os: os.iter().map(|s| s.to_string()).collect(),
    }
}

fn rule(platforms: Option<&[&str]>) -> ToolRule {
    ToolRule {
        binary: None,
        layer: None,
        kind: String::new(),
        source_url: String::new(),
        font_family: String::new(),
        package: None,
        packages: vec![],
        platforms: platforms.map(|p| p.iter().map(|s| s.to_string()).collect()),
    }
}

fn tool_entry(name: &str, binary: &str, kind: &str, font_family: &str) -> ToolEntry {
    ToolEntry {
        name: name.into(),
        binary: binary.into(),
        layer: "software".into(),
        kind: kind.into(),
        source_url: String::new(),
        font_family: font_family.into(),
        platforms: vec![],
    }
}

fn no_facts() -> PresenceFacts {
    PresenceFacts {
        binary_available: false,
        fc_list_available: false,
        family_reported: false,
        font_dir_has_token: false,
        cask_installed: false,
    }
}

#[test]
fn validation_rejects_unknown_tool_template() {
    let db = ToolDb {
        default_platforms: vec!["brew".into()],
        templates: vec![("brew".into(), template("brew install {package}", None, &[]))],
        tools: vec![("fish".into(), rule(Some(&["missing"])))],
    };
    let error = db.validate().unwrap_err();
    assert!(error.contains("tool 'fish' references unknown template 'missing'"));
}

#[test]
fn validation_rejects_duplicate_install_platforms() {
    let db = ToolDb {
        default_platforms: vec!["brew".into()],
        templates: vec![
            ("brew".into(), template("brew install {package}", None, &[])),
            ("brew_cask".into(), template("brew install --cask {package}", Some("brew"), &[])),
        ],
        tools: vec![("ghostty".into(), rule(Some(&["brew", "brew_cask"])))],
    };
    let error = db.validate().unwrap_err();
    assert!(error.contains("maps multiple templates to install platform 'brew'"));
}

#[test]
fn validation_rejects_default_template_without_package_placeholder() {
    let db = ToolDb {
        default_platforms: vec!["brew".into()],
        templates: vec![("brew".into(), template("brew install fish", None, &[]))],
        tools: vec![],
    };
    let error = db.validate().unwrap_err();
    assert!(error.contains("must contain '{package}'"));
}

#[test]
fn validation_reports_the_first_problem_in_order() {
    let mut bad = rule(None);
    bad.kind = "theme".into();
    let db = ToolDb {
        default_platforms: vec!["brew".into()],
        templates: vec![("brew".into(), template("brew install {package}", None, &[]))],
        tools: vec![("a".into(), bad), ("b".into(), rule(Some(&["missing"])))],
    };
    assert_eq!(db.validate(), Err("tool 'a' has unsupported kind 'theme'".to_string()));
    let empty = ToolDb { default_platforms: vec![], templates: vec![], tools: vec![] };
    assert_eq!(empty.validate(), Err("tool db has no default_platforms".to_string()));
}

fn sample_db() -> ToolDb {
    let mut fd = rule(None);
    fd.packages = vec![("apt".into(), "fd-find".into())];
    let mut neovim = rule(None);
    neovim.binary = Some("nvim".into());
    let ghostty = rule(Some(&["brew_cask", "pacman"]));
    let mut tree_sitter = rule(Some(&["brew", "pacman"]));
    tree_sitter.binary = Some("tree-sitter".into());
    tree_sitter.layer = Some("enhancement".into());
    ToolDb {
        default_platforms: vec!["apt".into(), "brew".into()],
        templates: vec![
            ("apt".into(), template("sudo apt install -y {package}", None, &[])),
            ("brew".into(), template("brew install {package}", None, &[])),
            ("brew_cask".into(), template("brew install --cask {package}", Some("brew"), &["macos"])),
            ("pacman".into(), template("sudo pacman -S --needed --noconfirm {package}", None, &[])),
        ],
        tools: vec![
            ("fd".into(), fd),
            ("ghostty".into(), ghostty),
            ("neovim".into(), neovim),
            ("tree-sitter-cli".into(), tree_sitter),
        ],
    }
}

fn command_for<'a>(entry: &'a ToolEntry, key: &str) -> &'a InstallCommand {
    &entry.platforms.iter().find(|(k, _)| k == key).expect("platform").1
}

#[test]
fn find_returns_matching_entry() {
    let db = sample_db();
    assert!(db.validate().is_ok());
    let neovim = find(&db, "neovim").unwrap();
    assert_eq!(neovim.binary, "nvim");
    assert_eq!(neovim.layer, "software");
    assert_eq!(command_for(&neovim, "brew").command(), "brew install neovim");
}

#[test]
fn find_synthesizes_unknown_tool_from_defaults() {
    let db = sample_db();
    let tool = find(&db, "totally-bogus").unwrap();
    assert_eq!(tool.binary, "totally-bogus");
    assert_eq!(tool.layer, "software");
    assert_eq!(command_for(&tool, "apt").command(), "sudo apt install -y totally-bogus");
}

#[test]
fn package_overrides_and_cask_platform_keys_apply() {
    let db = sample_db();
    let fd = find(&db, "fd").unwrap();
    assert_eq!(command_for(&fd, "apt").command(), "sudo apt install -y fd-find");
    assert_eq!(command_for(&fd, "brew").command(), "brew install fd");
    let ghostty = find(&db, "ghostty").unwrap();
    assert_eq!(command_for(&ghostty, "brew").command(), "brew install --cask ghostty");
    assert!(!command_for(&ghostty, "brew").supports_os("linux"));
    assert!(resolve_install(&db, "   ", "brew", None, "macos").is_err());
}

#[test]
fn install_command_without_os_supports_all_os() {
    let cmd = InstallCommand { command: "brew install fish".into(), os: vec![] };
    assert_eq!(cmd.command(), "brew install fish");
    assert!(cmd.supports_os("macos"));
    assert!(cmd.supports_os("linux"));
}

#[test]
fn install_command_respects_os() {
    let cmd = InstallCommand { command: "brew install --cask ghostty".into(), os: vec!["macos".into()] };
    assert_eq!(cmd.command(), "brew install --cask ghostty");
    assert!(cmd.supports_os("macos"));
    assert!(!cmd.supports_os("linux"));
}

#[test]
fn detects_present_cli_binary() {
    let entry = tool_entry("sh", "sh", "", "");
    let facts = PresenceFacts { binary_available: true, ..no_facts() };
    assert_eq!(detect_presence_with_probe(&entry, None, "linux", &facts), InstallPresence::Present);
}

#[test]
fn detects_missing_cli_binary() {
    let entry = tool_entry(
        "definitely-not-installed-dotman-test",
        "definitely-not-installed-dotman-test",
        "",
        "",
    );
    assert_eq!(detect_presence_with_probe(&entry, None, "linux", &no_facts()), InstallPresence::Missing);
}

#[test]
fn detects_unknown_when_binary_is_empty() {
    let entry = tool_entry("metadata-only", "", "", "");
    assert_eq!(detect_presence_with_probe(&entry, None, "linux", &no_facts()), InstallPresence::Unknown);
}

#[test]
fn detects_font_from_fontconfig_probe() {
    let entry = tool_entry("font-maple-mono-nf-cn", "font-maple-mono-nf-cn", "font", "Maple Mono");
    let facts = PresenceFacts { fc_list_available: true, family_reported: true, ..no_facts() };
    assert_eq!(detect_presence_with_probe(&entry, None, "linux", &facts), InstallPresence::Present);
}

#[test]
fn detects_font_from_font_dir_probe() {
    let entry = tool_entry("font-maple-mono-nf-cn", "font-maple-mono-nf-cn", "font", "Maple Mono");
    let facts = PresenceFacts { font_dir_has_token: true, ..no_facts() };
    assert_eq!(detect_presence_with_probe(&entry, None, "linux", &facts), InstallPresence::Present);
}

#[test]
fn macos_cask_presence_follows_the_app_directory() {
    let entry = tool_entry("ghostty", "ghostty", "", "");
    let facts = PresenceFacts { binary_available: true, ..no_facts() };
    assert_eq!(
        detect_presence_with_probe(&entry, Some("brew install --cask ghostty"), "macos", &facts),
        InstallPresence::Missing
    );
}

#[test]
fn parses_brew_cask_package() {
    assert_eq!(cask_package_from_command("brew install --cask ghostty"), Some("ghostty".into()));
    assert_eq!(cask_package_from_command("brew install fish"), None);
}

#[test]
fn derives_simple_app_bundle_name() {
    assert_eq!(app_bundle_name("ghostty"), "Ghostty.app");
    assert_eq!(app_bundle_name("visual-studio-code"), "VisualStudioCode.app");
}

#[test]
fn builds_font_match_token_from_family() {
    let entry = ToolEntry {
        name: "font-maple-mono-nf-cn".into(),
        binary: "font-maple-mono-nf-cn".into(),
        layer: "enhancement".into(),
        kind: "font".into(),
        source_url: String::new(),
        font_family: "Maple Mono".into(),
        platforms: vec![],
    };
    assert_eq!(font_match_token(&entry), "maplemono");
}

#[test]
fn command_for_current_platform_tries_manager_then_distro_then_os() {
    let mut entry = tool_entry("fish", "fish", "cli", "");
    entry.platforms = vec![
        ("apt".into(), InstallCommand { command: "sudo apt-get install -y fish".into(), os: vec!["debian".into()] }),
        ("linux".into(), InstallCommand { command: "curl fish | sh".into(), os: vec![] }),
    ];
    assert_eq!(
        command_for_current_platform(&entry, "apt", Some("debian"), "linux").as_deref(),
        Some("sudo apt-get install -y fish")
    );
    assert_eq!(
        command_for_current_platform(&entry, "apt", Some("fedora"), "linux").as_deref(),
        Some("curl fish | sh")
    );
    assert_eq!(command_for_current_platform(&entry, "brew", None, "macos"), None);
}

#[test]
fn find_applies_platform_package_overrides() {
    let fd = find(&sample_db(), "fd").unwrap();
    assert_eq!(command_for(&fd, "apt").command(), "sudo apt install -y fd-find");
    assert_eq!(command_for(&fd, "brew").command(), "brew install fd");
}

#[test]
fn find_tree_sitter_cli_uses_cli_binary() {
    let tree_sitter = find(&sample_db(), "tree-sitter-cli").unwrap();
    assert_eq!(tree_sitter.binary, "tree-sitter");
    assert_eq!(tree_sitter.layer, "enhancement");
    assert_eq!(command_for(&tree_sitter, "brew").command(), "brew install tree-sitter-cli");
    assert_eq!(
        command_for(&tree_sitter, "pacman").command(),
        "sudo pacman -S --needed --noconfirm tree-sitter-cli"
    );
}

#[test]
fn find_maps_brew_cask_template_to_brew_platform() {
    let ghostty = find(&sample_db(), "ghostty").unwrap();
    assert_eq!(command_for(&ghostty, "brew").command(), "brew install --cask ghostty");
    assert!(!command_for(&ghostty, "brew").supports_os("linux"));
    assert_eq!(command_for(&ghostty, "pacman").command(), "sudo pacman -S --needed --noconfirm ghostty");
}

#[test]
fn detects_linux_ghostty_from_binary_probe() {
    let entry = find(&sample_db(), "ghostty").unwrap();
    let facts = PresenceFacts { binary_available: true, ..no_facts() };
    assert_eq!(
        detect_presence_with_probe(&entry, Some("sudo pacman -S --needed --noconfirm ghostty"), "linux", &facts),
        InstallPresence::Present
    );
}
