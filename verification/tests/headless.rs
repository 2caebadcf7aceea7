use dotman::cli::Mode as CliMode;
use dotman::headless::{
    deploy_outcome, history_lines, history_save_error, run_detail_rows, run_no_config, summary_line, NoConfigAction,
};
use dotman::model::{ActionStatus, Mode, Run, RunAction, RunItem, RunStatus};

fn test_run() -> Run {
    Run {
        id: "test".into(),
        plan_id: None,
        mode: Mode::Deploy,
        started_at: "2026-01-01T00:00:00Z".into(),
        finished_at: Some("2026-01-01T00:01:00Z".into()),
        status: RunStatus::Success,
        config_hash: "abc".into(),
        config_path: None,
        host: None,
        items: vec![],
    }
}

#[test]
fn print_summary_does_not_panic() {
    let mut run = test_run();
    run.items = vec![RunItem {
        id: "1".into(),
        name: "fish".into(),
        status: ActionStatus::NoChange,
        started_at: None,
        finished_at: None,
        duration_ms: Some(100),
        attempts: 1,
        error: None,
        output: vec![],
        actions: vec![],
    }];
    let line = summary_line(&run);
    assert_eq!(line, "run test finished: 0 ran, 0 changed, 1 no change, 0 failed");
}

#[test]
fn history_save_error_preserves_run_result_and_next_step() {
    let mut run = test_run();
    run.status = RunStatus::Failed;

    let message = history_save_error(&run, "disk full");

    assert!(message.contains("finished with status failed"));
    assert!(message.contains("history was not saved: disk full"));
    assert!(message.contains("check disk space"));
}

#[test]
fn run_detail_uses_action_results_and_legacy_item_fallback() {
    let mut run = test_run();
    run.items = vec![RunItem {
        id: "multi".into(),
        name: "multi".into(),
        status: ActionStatus::WillFail,
        started_at: None,
        finished_at: None,
        duration_ms: None,
        attempts: 1,
        error: Some("item error".into()),
        output: vec![],
        actions: vec![
            RunAction {
                kind: "create".into(),
                name: "create dir".into(),
                status: ActionStatus::WillCreate,
                error: None,
                output: vec![],
            },
            RunAction {
                kind: "shell".into(),
                name: "configure".into(),
                status: ActionStatus::WillFail,
                error: Some("exit code 1".into()),
                output: vec![],
            },
        ],
    }];

    let rows = run_detail_rows(&run);
    assert_eq!(rows.len(), 2);
    assert_eq!(rows[0].name, "multi / create dir");
    assert_eq!(rows[0].status, "changed");
    assert_eq!(rows[0].error, None);
    assert_eq!(rows[1].status, "failed");
    assert_eq!(rows[1].error.as_deref(), Some("exit code 1"));

    run.items[0].actions.clear();
    let legacy = run_detail_rows(&run);
    assert_eq!(legacy.len(), 1);
    assert_eq!(legacy[0].name, "multi");
    assert_eq!(legacy[0].error.as_deref(), Some("item error"));
}

#[test]
fn deploy_outcome_fails_unless_the_run_succeeded() {
    let mut run = test_run();
    assert!(deploy_outcome(&run).is_ok());
    run.status = RunStatus::Aborted;
    assert_eq!(deploy_outcome(&run), Err("run finished with status aborted".to_string()));
}

#[test]
fn history_lists_runs_in_columns() {
    assert_eq!(history_lines(&vec![]), vec!["no runs yet".to_string()]);
    let lines = history_lines(&vec![test_run()]);
    assert_eq!(lines.len(), 2);
    assert_eq!(lines[0], format!("{:<26}  {:<10}  {:<8}  STARTED", "ID", "MODE", "STATUS"));
    assert_eq!(
        lines[1],
        format!("{:<26}  {:<10}  {:<8}  {}", "test", "deploy", "success", "2026-01-01T00:00:00Z")
    );
}

#[test]
fn history_and_run_details_need_no_config() {
    assert!(matches!(run_no_config(CliMode::History), Ok(NoConfigAction::History)));
    match run_no_config(CliMode::Run("01ABC".to_string())) {
        Ok(NoConfigAction::Run(id)) => assert_eq!(id, "01ABC"),
        other => panic!("unexpected {other:?}"),
    }
    assert_eq!(run_no_config(CliMode::Menu).unwrap_err(), "mode Menu requires config");
    assert_eq!(run_no_config(CliMode::Deploy).unwrap_err(), "mode Deploy requires config");
    assert_eq!(run_no_config(CliMode::Plan).unwrap_err(), "mode Plan requires config");
}

#[test]
fn menu_deploy_and_plan_need_a_config() {
    assert!(CliMode::Menu.needs_config());
    assert!(CliMode::Deploy.needs_config());
    assert!(CliMode::Plan.needs_config());
    assert!(!CliMode::History.needs_config());
    assert!(!CliMode::Run("x".to_string()).needs_config());
}
