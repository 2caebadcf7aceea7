use dotman::config::{normalize, RawConfig, RawLinks};

#[test]
fn normalizes_to_config() {
    let raw = RawConfig { install: vec!["fish".into()], ..Default::default() };
    let cfg = normalize(raw, "/tmp/dotman.yaml");
    assert_eq!(cfg.install, vec!["fish"]);
    assert!(!cfg.auto_install_pkg_manager);
    assert_eq!(cfg.path, "/tmp/dotman.yaml");
}

#[test]
fn link_map_shorthand_becomes_link_entries() {
    let links = RawLinks::Mapping(vec![
        ("~/.config/fish".into(), "config/fish".into()),
        ("~/.tmux.conf".into(), "config/tmux.conf".into()),
    ])
    .into_vec();
    assert_eq!(links.len(), 2);
    assert!(links
        .iter()
        .any(|link| link.target == "~/.config/fish" && link.source == "config/fish"));
    assert!(links
        .iter()
        .any(|link| link.target == "~/.tmux.conf" && link.source == "config/tmux.conf"));
    assert!(links.iter().all(|link| link.backup.is_none() && link.relink.is_none()));
}
