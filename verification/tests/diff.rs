use dotman::diff::{diff_summary, has_issues};
use dotman::diff::{
    dotfile_diff_entry, generate_reconcile_commands, tool_diff_entry, DiffOutput, DiffSummary,
    DotfileDiffEntry, StaleEntry, ToolDiffEntry,
};

fn empty_output() -> DiffOutput {
    DiffOutput {
        installed_tools: vec![],
        linked_dotfiles: vec![],
        backups: vec![],
        staging_leftovers: vec![],
        source_checkout: None,
        summary: DiffSummary::default(),
    }
}

#[test]
fn reconcile_generates_bootstrap_for_missing_tools() {
    let output = DiffOutput {
        installed_tools: vec![ToolDiffEntry {
            name: "zoxide".to_string(),
            path: "/tmp/zoxide".to_string(),
            status: "missing".to_string(),
            installed_version: None,
            expected_version: Some("0.1.0".to_string()),
        }],
        ..empty_output()
    };
    let cmds = generate_reconcile_commands(&output);
    assert_eq!(cmds.len(), 1);
    assert!(cmds[0].contains("bootstrap"));
}

#[test]
fn reconcile_generates_link_force_for_missing_dotfiles() {
    let output = DiffOutput {
        linked_dotfiles: vec![
            DotfileDiffEntry {
                name: "nvim".to_string(),
                path: "~/.config/nvim".to_string(),
                status: "missing".to_string(),
                actual_target: None,
            },
            DotfileDiffEntry {
                name: "fish".to_string(),
                path: "~/.config/fish".to_string(),
                status: "wrong_target".to_string(),
                actual_target: Some("/wrong/path".to_string()),
            },
        ],
        ..empty_output()
    };
    let cmds = generate_reconcile_commands(&output);
    assert_eq!(cmds.len(), 1);
    assert!(cmds[0].contains("link --force"));
    assert!(cmds[0].contains("nvim"));
    assert!(cmds[0].contains("fish"));
}

#[test]
fn reconcile_empty_when_all_ok() {
    let output = DiffOutput {
        installed_tools: vec![ToolDiffEntry {
            name: "bat".to_string(),
            path: "/tmp/bat".to_string(),
            status: "ok".to_string(),
            installed_version: None,
            expected_version: None,
        }],
        ..empty_output()
    };
    let cmds = generate_reconcile_commands(&output);
    assert!(cmds.is_empty());
}

#[test]
fn reconcile_includes_cleanup_for_stale() {
    let output = DiffOutput {
        backups: vec![StaleEntry {
            path: "/tmp/bat.dotman-backup".to_string(),
            status: "stale".to_string(),
        }],
        ..empty_output()
    };
    let cmds = generate_reconcile_commands(&output);
    assert_eq!(cmds.len(), 1);
    assert!(cmds[0].contains("cleanup"));
}

#[test]
fn reconcile_batches_multiple_categories() {
    let output = DiffOutput {
        installed_tools: vec![ToolDiffEntry {
            name: "fd".to_string(),
            path: "/tmp/fd".to_string(),
            status: "drifted".to_string(),
            installed_version: Some("1.0".to_string()),
            expected_version: Some("2.0".to_string()),
        }],
        linked_dotfiles: vec![DotfileDiffEntry {
            name: "wezterm".to_string(),
            path: "~/.config/wezterm".to_string(),
            status: "missing".to_string(),
            actual_target: None,
        }],
        backups: vec![StaleEntry {
            path: "/tmp/old.dotman-backup".to_string(),
            status: "stale".to_string(),
        }],
        ..empty_output()
    };
    let cmds = generate_reconcile_commands(&output);
    assert_eq!(cmds.len(), 3);
    assert!(cmds.iter().any(|c| c.contains("bootstrap")));
    assert!(cmds.iter().any(|c| c.contains("link --force")));
    assert!(cmds.iter().any(|c| c.contains("cleanup")));
}

#[test]
fn wrong_target_includes_actual_target() {
    let entry = dotfile_diff_entry("config/nvim", "/tmp/nvim", Some("/wrong/path".to_string()), false);
    assert_eq!(entry.name, "nvim");
    assert_eq!(entry.status, "wrong_target");
    assert_eq!(entry.actual_target.as_deref(), Some("/wrong/path"));
}

#[test]
fn missing_tool_has_no_versions() {
    let entry = tool_diff_entry("zoxide", "/tmp/zoxide", false, "0.9.0", None);
    assert_eq!(entry.status, "missing");
    assert!(entry.installed_version.is_none());
    assert!(entry.expected_version.is_none());
}

#[test]
fn version_unknown_tool_has_expected_version() {
    let entry = tool_diff_entry("tool", "/tmp/tool", true, "1.0.0", Some(None));
    assert_eq!(entry.status, "version_unknown");
    assert_eq!(entry.expected_version.as_deref(), Some("1.0.0"));
}

#[test]
fn diff_output_drifted_includes_versions() {
    let entry = tool_diff_entry("delta", "/tmp/delta", true, "0.19.0", Some(Some("0.18.2".to_string())));
    assert_eq!(entry.status, "drifted");
    assert_eq!(entry.installed_version.as_deref(), Some("0.18.2"));
    assert_eq!(entry.expected_version.as_deref(), Some("0.19.0"));
}

#[test]
fn matching_link_is_ok_and_latest_is_not_pinned() {
    let entry = dotfile_diff_entry("fish", "~/.config/fish", Some("/repo/fish".to_string()), true);
    assert_eq!(entry.status, "ok");
    assert!(entry.actual_target.is_none());
    let tool = tool_diff_entry("bat", "/tmp/bat", true, "latest", Some(Some("0.24".to_string())));
    assert_eq!(tool.status, "ok");
    assert!(tool.expected_version.is_none());
}

#[test]
fn summary_counts_each_status_and_flags_issues() {
    let tool = |s: &str| ToolDiffEntry { name: "t".into(), path: "/p".into(), status: s.into(), installed_version: None, expected_version: None };
    let dot = |s: &str| DotfileDiffEntry { name: "d".into(), path: "/d".into(), status: s.into(), actual_target: None };
    let tools = vec![tool("ok"), tool("missing"), tool("drifted"), tool("version_unknown"), tool("ok")];
    let dots = vec![dot("ok"), dot("wrong_target"), dot("missing")];
    let s = diff_summary(&tools, &dots, 2, true);
    assert_eq!((s.ok, s.missing, s.drifted, s.version_unknown, s.wrong_target, s.stale), (3, 2, 1, 1, 1, 2));
    assert!(s.narrow);
    assert!(has_issues(&s));
    let clean = diff_summary(&vec![tool("ok")], &vec![dot("ok")], 0, false);
    assert!(!has_issues(&clean));
}
