use dotman::yaml::{insert_link_entry, YamlValue};

fn to_value(v: serde_yaml::Value) -> YamlValue {
    match v {
        serde_yaml::Value::Null => YamlValue::Null,
        serde_yaml::Value::Bool(b) => YamlValue::Bool(b),
        serde_yaml::Value::Number(n) => YamlValue::Number(n.to_string()),
        serde_yaml::Value::String(s) => YamlValue::Str(s),
        serde_yaml::Value::Sequence(items) => YamlValue::Sequence(items.into_iter().map(to_value).collect()),
        serde_yaml::Value::Mapping(m) => {
            YamlValue::Mapping(m.into_iter().map(|(k, v)| (to_value(k), to_value(v))).collect())
        }
        serde_yaml::Value::Tagged(t) => YamlValue::Tagged(t.tag.to_string(), Box::new(to_value(t.value))),
    }
}

fn parse(raw: &str) -> YamlValue {
    to_value(serde_yaml::from_str(raw).unwrap())
}

fn links_of(doc: &YamlValue) -> Vec<(String, String)> {
    let YamlValue::Mapping(m) = doc else { panic!("not a mapping") };
    let (_, links) = m.iter().find(|(k, _)| matches!(k, YamlValue::Str(s) if s == "links")).unwrap();
    let YamlValue::Mapping(l) = links else { panic!("links not a mapping") };
    l.iter()
        .map(|(k, v)| match (k, v) {
            (YamlValue::Str(k), YamlValue::Str(v)) => (k.clone(), v.clone()),
            _ => panic!("non-string link"),
        })
        .collect()
}

#[test]
fn insert_link_entry_adds_to_links_section() {
    let raw = "install: []\nlinks:\n  ~/.config/fish: config/fish\ncreate: []\n";
    let updated = insert_link_entry(parse(raw), "~/.tmux.conf", "config/tmux.conf").unwrap();
    let links = links_of(&updated);
    assert!(links.contains(&("~/.config/fish".into(), "config/fish".into())));
    assert!(links.contains(&("~/.tmux.conf".into(), "config/tmux.conf".into())));
}

#[test]
fn insert_link_entry_replaces_existing_target() {
    let raw = "links:\n  ~/.tmux.conf: old\n";
    let updated = insert_link_entry(parse(raw), "~/.tmux.conf", "config/tmux.conf").unwrap();
    assert_eq!(links_of(&updated), vec![("~/.tmux.conf".to_string(), "config/tmux.conf".to_string())]);
}

#[test]
fn insert_link_entry_handles_sequence_links_format() {
    let raw = "install: []\nlinks:\n  - target: ~/.config/fish\n    source: config/fish\n";
    let updated = insert_link_entry(parse(raw), "~/.tmux.conf", "config/tmux.conf").unwrap();
    let links = links_of(&updated);
    assert!(links.contains(&("~/.config/fish".into(), "config/fish".into())));
    assert!(links.contains(&("~/.tmux.conf".into(), "config/tmux.conf".into())));
}

#[test]
fn insert_link_entry_rejects_backup_field_in_sequence() {
    let raw = "links:\n  - target: ~/.config/fish\n    source: config/fish\n    backup: true\n";
    let result = insert_link_entry(parse(raw), "~/.tmux.conf", "config/tmux.conf");
    assert!(result.is_err());
    let err = result.unwrap_err();
    assert!(err.contains("backup"));
    assert_eq!(
        err,
        "links: list item '~/.config/fish' has extra fields (backup) that cannot be preserved in map format; edit dotman.yaml manually to add this link"
    );
}

#[test]
fn missing_or_empty_links_section_is_created() {
    let updated = insert_link_entry(parse("install: []\n"), "~/a", "a").unwrap();
    assert_eq!(links_of(&updated), vec![("~/a".to_string(), "a".to_string())]);
    let updated = insert_link_entry(parse("links:\n"), "~/a", "a").unwrap();
    assert_eq!(links_of(&updated), vec![("~/a".to_string(), "a".to_string())]);
    assert_eq!(
        insert_link_entry(parse("- 1\n"), "~/a", "a").unwrap_err(),
        "dotman.yaml is not a mapping"
    );
    assert_eq!(
        insert_link_entry(parse("links: 3\n"), "~/a", "a").unwrap_err(),
        "links: section has unexpected format"
    );
}
