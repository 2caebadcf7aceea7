use dotman::ops::link::backup_candidate;
use dotman::ops::link::{
    decide_link_action, diff_components, normal_components, plan_link, LinkAction, LinkProbe,
    LinkSettings, PathComponent, TargetState,
};

fn settings(relink: bool, backup: bool, relative: bool) -> LinkSettings {
    LinkSettings { create: true, relink, backup, relative }
}

fn probe(source_exists: bool, state: TargetState, relative_source: Option<&str>) -> LinkProbe {
    LinkProbe {
        source_exists,
        state,
        relative_source: relative_source.map(|s| s.to_string()),
        backup_path: "/home/u/.vimrc.backup.1".into(),
        conflict: "target exists".into(),
    }
}

#[test]
fn link_skips_when_already_correct() {
    let plan = plan_link("/repo", "~/.vimrc", "vimrc", settings(false, false, false), Some("/home/u"), probe(true, TargetState::ExpectedSymlink, None)).unwrap();
    assert!(matches!(plan.action, LinkAction::Skip));
    assert_eq!(plan.target, "/home/u/.vimrc");
    assert_eq!(plan.source, "/repo/vimrc");
    assert_eq!(plan.link_source, "/repo/vimrc");
}

#[test]
fn link_backs_up_existing_file() {
    let plan = plan_link("/repo", "/home/u/.vimrc", "vimrc", settings(false, true, false), None, probe(true, TargetState::Occupied, None)).unwrap();
    match plan.action {
        LinkAction::Backup(p) => assert_eq!(p, "/home/u/.vimrc.backup.1"),
        other => panic!("unexpected {other:?}"),
    }
}

#[test]
fn link_fails_when_source_missing() {
    let plan = plan_link("/repo", "/home/u/.vimrc", "/abs/vimrc", settings(false, false, false), None, probe(false, TargetState::Missing, None)).unwrap();
    match plan.action {
        LinkAction::Fail(reason) => assert_eq!(reason, "source does not exist"),
        other => panic!("unexpected {other:?}"),
    }
    assert_eq!(plan.source, "/abs/vimrc");
}

#[test]
fn relative_link_uses_the_computed_path_or_fails() {
    let plan = plan_link("/repo", "/home/u/.vimrc", "vimrc", settings(false, false, true), None, probe(true, TargetState::Missing, Some("../../repo/vimrc"))).unwrap();
    assert_eq!(plan.link_source, "../../repo/vimrc");
    assert!(matches!(plan.action, LinkAction::Link));
    let err = plan_link("/repo", "/home/u/.vimrc", "vimrc", settings(false, false, true), None, probe(true, TargetState::Missing, None)).unwrap_err();
    assert_eq!(err, "failed to compute relative link for /home/u/.vimrc");
}

#[test]
fn wrong_symlink_is_relinked_backed_up_or_refused() {
    assert!(matches!(decide_link_action(true, TargetState::OtherSymlink, settings(true, true, false), "b".into(), "c".into()), LinkAction::Relink));
    assert!(matches!(decide_link_action(true, TargetState::OtherSymlink, settings(false, true, false), "b".into(), "c".into()), LinkAction::Backup(_)));
    assert!(matches!(decide_link_action(true, TargetState::OtherSymlink, settings(false, false, false), "b".into(), "c".into()), LinkAction::Fail(_)));
}

#[test]
fn relative_path_from_target_dir_to_source() {
    let comps = |parts: &[&str]| -> Vec<PathComponent> {
        let mut v = vec![PathComponent::RootDir];
        v.extend(parts.iter().map(|p| PathComponent::Normal(p.to_string())));
        v
    };
    let source = normal_components(&comps(&["repo", "config", "fish"])).unwrap();
    let base = normal_components(&comps(&["home", "u", ".config"])).unwrap();
    assert_eq!(diff_components(&source, &base), vec!["..", "..", "..", "repo", "config", "fish"]);
    assert!(normal_components(&vec![PathComponent::ParentDir]).is_none());
}

#[test]
fn backup_candidates_replace_the_extension() {
    assert_eq!(backup_candidate("/h/.tmux.conf", "20260101000000", 0), "/h/.tmux.backup.20260101000000");
    assert_eq!(backup_candidate("/h/.bashrc", "20260101000000", 2), "/h/.bashrc.backup.20260101000000.2");
    assert_eq!(backup_candidate("/h/fish", "1", 0), "/h/fish.backup.1");
    assert_eq!(
        std::path::Path::new("/h/.tmux.conf").with_extension("backup.1").display().to_string(),
        backup_candidate("/h/.tmux.conf", "1", 0)
    );
}
