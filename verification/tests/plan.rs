use dotman::config::{Config, LinkEntry, PackageManagerConfig, ShellEntry};
use dotman::model::{Action, ActionStatus, HostInfo, Mode, Plan, PlanItem};
use dotman::ops::install::{InstallCommandTemplate, ToolDb, ToolRule};
use dotman::package_managers::Os;
use dotman::plan::{build, default_shell_command};

fn sample_config() -> Config {
    Config {
        path: "/tmp/dotman.yaml".into(),
        package_managers: PackageManagerConfig { macos: Some("brew".into()), ..Default::default() },
        install: vec!["fish".into(), "tmux".into(), "nvim".into()],
        links: vec![
            LinkEntry {
                target: "/tmp/home/.config/fish".into(),
                source: "config/fish".into(),
                backup: None,
                relink: None,
            },
            LinkEntry {
                target: "/tmp/home/.local/bin/tmux-status".into(),
                source: "bin/tmux-status".into(),
                backup: None,
                relink: None,
            },
            LinkEntry {
                target: "/tmp/home/.tmux.conf".into(),
                source: "config/tmux.conf".into(),
                backup: None,
                relink: None,
            },
            LinkEntry {
                target: "/tmp/home/some/random".into(),
                source: "config/random".into(),
                backup: None,
                relink: None,
            },
            LinkEntry {
                target: "/tmp/home/.config/nvim".into(),
                source: "config/nvim".into(),
                backup: None,
                relink: None,
            },
        ],
        create: vec![],
        shell: vec![ShellEntry {
            command: "fisher update".into(),
            description: Some("Sync fish plugins".into()),
            optional: true,
            if_condition: None,
        }],
        default_shell: None,
        clean: vec![],
        auto_install_pkg_manager: false,
        auto_clone_repo: None,
    }
}

fn rule(binary: Option<&str>, layer: &str) -> ToolRule {
    ToolRule {
        binary: binary.map(|b| b.to_string()),
        layer: Some(layer.to_string()),
        kind: String::new(),
        source_url: String::new(),
        font_family: String::new(),
        package: None,
        packages: vec![],
        platforms: None,
    }
}

// A tool database holding the tools the sample configuration names.
fn sample_db() -> ToolDb {
    ToolDb {
        default_platforms: vec!["brew".into()],
        templates: vec![(
            "brew".into(),
            InstallCommandTemplate { command: "brew install {package}".into(), platform: None, os: vec![] },
        )],
        tools: vec![
            ("fish".into(), rule(None, "shell")),
            ("neovim".into(), rule(Some("nvim"), "software")),
            ("tmux".into(), rule(None, "multiplexer")),
        ],
    }
}

fn host() -> HostInfo {
    HostInfo {
        hostname: "host".into(),
        os: "Mac".into(),
        arch: "aarch64".into(),
        user: "user".into(),
        home: "/tmp/home".into(),
    }
}

fn plan_of(cfg: &Config) -> Plan {
    build(cfg, Mode::Deploy, &sample_db(), Some("brew"), None, host())
}

#[test]
fn plan_assigns_layers_correctly() {
    let plan = plan_of(&sample_config());
    let fish = plan.items.iter().find(|i| i.name == "fish").unwrap();
    assert_eq!(fish.layer, "shell");
    let tmux = plan.items.iter().find(|i| i.name == "tmux").unwrap();
    assert_eq!(tmux.layer, "multiplexer");
}

#[test]
fn plan_auto_attaches_link_to_install() {
    let plan = plan_of(&sample_config());
    let fish = plan.items.iter().find(|i| i.name == "fish").unwrap();
    assert_eq!(fish.actions.len(), 2);
    assert!(matches!(fish.actions[0], Action::Install { .. }));
    assert!(matches!(fish.actions[1], Action::Link { .. }));
}

#[test]
fn plan_preserves_link_backup_and_relink_settings() {
    let cfg = Config {
        install: vec![],
        links: vec![
            LinkEntry { target: "/tmp/home/a".into(), source: "a".into(), backup: Some(false), relink: Some(true) },
            LinkEntry { target: "/tmp/home/b".into(), source: "b".into(), backup: None, relink: None },
        ],
        ..sample_config()
    };
    let plan = plan_of(&cfg);
    let links = plan.items.iter().flat_map(|item| item.actions.iter()).collect::<Vec<_>>();
    assert!(matches!(links.first(), Some(Action::Link { backup: false, relink: true, .. })));
    assert!(matches!(links.get(1), Some(Action::Link { backup: true, relink: false, .. })));
}

#[test]
fn plan_attaches_default_shell_to_matching_install() {
    let cfg = Config { default_shell: Some("fish".into()), ..sample_config() };
    let plan = plan_of(&cfg);
    let fish = plan.items.iter().find(|i| i.name == "fish").unwrap();
    assert!(fish.actions.iter().any(|a| matches!(
        a,
        Action::Shell { description, if_condition, .. }
            if description.as_deref() == Some("Set default shell to fish") && if_condition.is_some()
    )));
}

#[test]
fn default_shell_command_resolves_shell_from_path() {
    let command = default_shell_command("fish");
    assert!(command.contains("command -v 'fish'"));
    assert!(command.contains("/etc/shells"));
    assert!(command.contains("sudo chsh -s \"$shell_path\" \"$USER\""));
}

#[test]
fn plan_auto_attaches_prefix_match() {
    let plan = plan_of(&sample_config());
    let tmux = plan.items.iter().find(|i| i.name == "tmux").unwrap();
    assert_eq!(tmux.actions.len(), 3);
    assert!(tmux
        .actions
        .iter()
        .any(|a| matches!(a, Action::Link { target, .. } if target == "/tmp/home/.tmux.conf")));
}

#[test]
fn plan_auto_attaches_binary_alias_match() {
    let cfg = Config { install: vec!["neovim".into()], ..sample_config() };
    let plan = plan_of(&cfg);
    let neovim = plan.items.iter().find(|i| i.name == "neovim").unwrap();
    assert!(neovim
        .actions
        .iter()
        .any(|a| matches!(a, Action::Link { target, .. } if target == "/tmp/home/.config/nvim")));
}

#[test]
fn plan_orphan_goes_to_misc() {
    let plan = plan_of(&sample_config());
    let random = plan.items.iter().find(|i| i.name.contains("random")).unwrap();
    assert_eq!(random.layer, "misc");
}

#[test]
fn smart_default_pick_one_layer() {
    let plan = plan_of(&sample_config());
    let fish = plan.items.iter().find(|i| i.name == "fish").unwrap();
    assert!(fish.selected);
}

#[test]
fn shell_step_goes_to_misc() {
    let plan = plan_of(&sample_config());
    let shell = plan
        .items
        .iter()
        .find(|i| i.layer == "misc" && i.actions.iter().any(|a| matches!(a, Action::Shell { .. })))
        .unwrap();
    assert!(shell.selected);
}

#[test]
fn auto_install_pkg_manager_adds_shell_action_when_brew() {
    let mut cfg = sample_config();
    cfg.auto_install_pkg_manager = true;
    let plan = plan_of(&cfg);
    let pkg = plan
        .items
        .iter()
        .find(|i| i.name == "auto-install package manager")
        .expect("auto-install item should exist with brew configured");
    assert!(pkg.selected);
    assert!(matches!(
        pkg.actions[0],
        Action::Shell { ref if_condition, .. } if if_condition.as_deref() == Some("! command -v brew")
    ));
}

#[test]
fn auto_install_no_action_when_pkg_mgr_unknown() {
    let mut cfg = sample_config();
    cfg.auto_install_pkg_manager = true;
    cfg.package_managers = PackageManagerConfig::default();
    let plan = build(&cfg, Mode::Deploy, &sample_db(), None, None, host());
    let pkg = plan.items.iter().find(|i| i.name == "auto-install package manager");
    assert!(pkg.is_none());
}

#[test]
fn needs_sudo_false_when_brew_auto_install_no_sudo_in_cmd() {
    let mut cfg = sample_config();
    cfg.auto_install_pkg_manager = true;
    let plan = plan_of(&cfg);
    assert!(!plan.needs_sudo(Os::Mac));
    assert!(plan.needs_sudo(Os::Linux));
}

#[test]
fn needs_sudo_true_for_shell_cmd_with_sudo() {
    let cfg = Config {
        shell: vec![ShellEntry {
            command: "sudo systemctl restart foo".into(),
            description: None,
            optional: false,
            if_condition: None,
        }],
        ..sample_config()
    };
    let plan = plan_of(&cfg);
    assert!(plan.needs_sudo(Os::Mac));
}

#[test]
fn needs_sudo_false_when_no_sudo_anywhere() {
    let plan = plan_of(&sample_config());
    assert!(!plan.needs_sudo(Os::Mac));
    assert!(plan.needs_sudo(Os::Linux));
}

#[test]
fn plan_item_ids_are_distinct_and_hash_is_empty_without_contents() {
    let plan = plan_of(&sample_config());
    let mut ids: Vec<&String> = plan.items.iter().map(|i| &i.id).collect();
    ids.sort();
    ids.dedup();
    assert_eq!(ids.len(), plan.items.len());
    assert_eq!(plan.id.len(), 26);
    assert_eq!(plan.config_hash, "");
    let hashed = build(&sample_config(), Mode::Deploy, &sample_db(), Some("brew"), Some(b"abc"), host());
    assert_eq!(
        hashed.config_hash,
        "ba7816bf8f01cfea414140de5dae2223b00361a396177a9cb410ff61f20015ad"
    );
}

fn plan_item(name: &str, actions: Vec<Action>, selected: bool) -> PlanItem {
    PlanItem { id: name.into(), name: name.into(), layer: "misc".into(), actions, selected }
}

fn install(binary: &str) -> Action {
    Action::Install { pkg_mgr: "apt".into(), binary: binary.into(), source: "db".into() }
}

fn link(target: &str) -> Action {
    Action::Link { target: target.into(), source: "s".into(), backup: false, relink: false }
}

#[test]
fn primary_status_is_the_worst_planned_status() {
    assert_eq!(plan_item("e", vec![], true).primary_status(), ActionStatus::WillRun);
    let shell = Action::Shell { command: "true".into(), description: None, optional: false, if_condition: None };
    assert_eq!(plan_item("a", vec![shell, link("/t")], true).primary_status(), ActionStatus::WillLink);
    assert_eq!(plan_item("b", vec![link("/t"), install("x")], true).primary_status(), ActionStatus::WillInstall);
    assert_eq!(
        plan_item("c", vec![install("x"), Action::Create { target: "/d".into() }], true).primary_status(),
        ActionStatus::WillCreate
    );
}

#[test]
fn auto_apt_update_follows_selected_installs() {
    let update = Action::Shell { command: "sudo apt-get update".into(), description: None, optional: false, if_condition: None };
    let mut plan = Plan {
        id: "p".into(),
        mode: Mode::Deploy,
        created_at: "now".into(),
        config_path: "/tmp/dotman.yaml".into(),
        config_hash: "h".into(),
        host: HostInfo { hostname: "h".into(), os: "linux".into(), arch: "x86_64".into(), user: "u".into(), home: "/home/u".into() },
        items: vec![
            plan_item("auto apt update", vec![update], false),
            plan_item("tool fish", vec![install("fish")], true),
            plan_item("links", vec![link("/t")], true),
        ],
        auto_install_pkg_manager: false,
    };
    plan.sync_auto_steps();
    assert!(plan.items[0].selected);
    plan.items[1].selected = false;
    plan.sync_auto_steps();
    assert!(!plan.items[0].selected);
    assert!(plan.items[2].selected);
}

#[test]
fn every_configured_action_is_planned_exactly_once() {
    let cfg = sample_config();
    let plan = plan_of(&cfg);
    let total: usize = plan.items.iter().map(|i| i.actions.len()).sum();
    assert_eq!(total, cfg.install.len() + cfg.links.len() + cfg.create.len() + cfg.shell.len() + cfg.clean.len());
    let tmux = plan.items.iter().find(|i| i.name == "tmux").unwrap();
    assert!(matches!(tmux.actions[0], Action::Install { .. }));
    let targets: Vec<&str> = tmux.actions[1..]
        .iter()
        .map(|a| match a {
            Action::Link { target, .. } => target.as_str(),
            _ => panic!("only links follow the install"),
        })
        .collect();
    assert_eq!(targets, vec!["/tmp/home/.local/bin/tmux-status", "/tmp/home/.tmux.conf"]);
    let sync = plan.items.iter().find(|i| i.name == "Sync fish plugins").unwrap();
    assert_eq!(sync.actions.len(), 1);
    assert!(matches!(sync.actions[0], Action::Shell { .. }));
}

#[test]
fn syncing_auto_steps_twice_changes_nothing() {
    let cfg = sample_config();
    let mut plan = build(&cfg, Mode::Deploy, &sample_db(), Some("apt"), None, host());
    assert_eq!(plan.items[0].name, "auto apt update");
    for item in plan.items.iter_mut() {
        if item.name != "auto apt update" {
            item.selected = false;
        }
    }
    plan.sync_auto_steps();
    let once: Vec<bool> = plan.items.iter().map(|i| i.selected).collect();
    assert!(!once[0]);
    plan.sync_auto_steps();
    let twice: Vec<bool> = plan.items.iter().map(|i| i.selected).collect();
    assert_eq!(once, twice);
}
