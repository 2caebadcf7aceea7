use dotman::model::{ActionStatus, Mode, Run, RunItem, RunStatus, RunSummary};

#[test]
fn result_labels_use_terminal_user_facing_language() {
    assert_eq!(ActionStatus::WillFail.result_label(), "failed");
    assert_eq!(ActionStatus::WillSkip.result_label(), "skipped");
    assert_eq!(ActionStatus::Aborted.result_label(), "aborted");
    assert_eq!(ActionStatus::NotRun.result_label(), "not run");
    assert_eq!(ActionStatus::NoChange.result_label(), "no change");
    assert_eq!(ActionStatus::WillLink.result_label(), "changed");
    assert_eq!(RunStatus::Success.result_label(), "success");
    assert_eq!(RunStatus::Failed.result_label(), "failed");
    assert_eq!(RunStatus::Aborted.result_label(), "aborted");
}

#[test]
fn run_summary_falls_back_to_item_status_for_legacy_history() {
    let run = Run {
        id: "legacy".into(),
        plan_id: None,
        mode: Mode::Deploy,
        started_at: "2026-01-01T00:00:00Z".into(),
        finished_at: Some("2026-01-01T00:00:01Z".into()),
        status: RunStatus::Failed,
        config_hash: "hash".into(),
        config_path: None,
        host: None,
        items: vec![RunItem {
            id: "step".into(),
            name: "step".into(),
            status: ActionStatus::WillFail,
            started_at: None,
            finished_at: None,
            duration_ms: None,
            attempts: 1,
            error: Some("exit code 7".into()),
            output: vec![],
            actions: vec![],
        }],
    };

    assert_eq!(RunSummary::from_run(&run).failed, 1);
}

#[test]
fn summary_display_lists_extra_counts_only_when_present() {
    let s = RunSummary { ran: 2, changed: 1, no_change: 0, failed: 0, aborted: 0, skipped: 3, not_run: 0 };
    assert_eq!(s.display(), "2 ran, 1 changed, 0 no change, 0 failed, 3 skipped");
}

#[test]
fn worse_than_follows_the_status_rank() {
    assert!(ActionStatus::WillFail.worse_than(ActionStatus::WillBackupLink));
    assert!(ActionStatus::WillBackupLink.worse_than(ActionStatus::WillLink));
    assert!(ActionStatus::WillLink.worse_than(ActionStatus::WillRun));
    assert!(ActionStatus::WillRun.worse_than(ActionStatus::NoChange));
    assert!(!ActionStatus::WillInstall.worse_than(ActionStatus::WillClean));
    assert!(!ActionStatus::Aborted.worse_than(ActionStatus::WillFail));
}
