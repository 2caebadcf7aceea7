use dotman::model::{ActionStatus, Mode, Run, RunItem, RunStatus};
use dotman::stamp::new_run_id;
use dotman::store::{
    collect_runs, is_run_log, latest_link, path_for, run_sort_key, runs_dir, scoped_selection_path,
    selection_path, sort_newest_first, LogRead,
};

fn sample_run(id: &str, started_at: &str) -> Run {
    Run {
        id: id.to_string(),
        plan_id: None,
        mode: Mode::Deploy,
        started_at: started_at.to_string(),
        finished_at: None,
        status: RunStatus::Success,
        config_hash: "abc".into(),
        config_path: None,
        host: None,
        items: vec![RunItem {
            id: "1".into(),
            name: "fish".into(),
            status: ActionStatus::NoChange,
            started_at: None,
            finished_at: None,
            duration_ms: Some(1000),
            attempts: 1,
            error: None,
            output: vec![],
            actions: vec![],
        }],
    }
}

#[test]
fn new_run_id_is_ulid_format() {
    let id = new_run_id();
    assert_eq!(id.len(), 26);
    assert!(id.chars().all(|c| "0123456789ABCDEFGHJKMNPQRSTVWXYZ".contains(c)));
}

#[test]
fn store_paths_live_under_the_data_directory() {
    let data = "/home/u/.local/share/dotman";
    let runs = runs_dir(data);
    assert_eq!(runs, "/home/u/.local/share/dotman/runs");
    assert_eq!(selection_path(data), "/home/u/.local/share/dotman/state.toml");
    assert_eq!(path_for(&runs, "01K"), "/home/u/.local/share/dotman/runs/01K.json");
    assert_eq!(latest_link(&runs), "/home/u/.local/share/dotman/runs/latest.json");
}

#[test]
fn scoped_selection_isolated_by_config_identity() {
    let data = "/d";
    let a = scoped_selection_path(data, b"/repo/a/dotman.yaml", b"hash-a");
    let b = scoped_selection_path(data, b"/repo/b/dotman.yaml", b"hash-b");
    assert_ne!(a, b);
    assert!(a.starts_with("/d/selection/"));
    assert!(a.ends_with(".toml"));
    assert_eq!(a.len(), "/d/selection/".len() + 64 + ".toml".len());
}

#[test]
fn list_reports_invalid_json_warnings() {
    let reads = vec![
        LogRead::ParseError { path: "/r/bad.json".into(), error: "expected value".into() },
        LogRead::Parsed(sample_run("01K00000000000000000000000", "epoch:1")),
    ];
    let report = collect_runs(reads);
    assert_eq!(report.runs.len(), 1);
    assert_eq!(report.warnings.len(), 1);
    assert!(report.warnings[0].contains("failed to parse run log"));
    assert_eq!(report.warnings[0], "failed to parse run log /r/bad.json: expected value");
}

#[test]
fn runs_are_listed_newest_first() {
    let older = sample_run("01K00000000000000000000001", "b");
    let newer = sample_run("01K00000000000000000000002", "a");
    let legacy = sample_run("legacy", "epoch:9");
    let sorted = sort_newest_first(vec![older, legacy, newer]);
    let ids: Vec<&str> = sorted.iter().map(|r| r.id.as_str()).collect();
    assert_eq!(ids, vec!["legacy", "01K00000000000000000000002", "01K00000000000000000000001"]);
    assert_eq!(run_sort_key(&sorted[0]), "epoch:9");
}

#[test]
fn only_json_logs_other_than_latest_are_listed() {
    assert!(is_run_log("01K.json"));
    assert!(!is_run_log("latest.json"));
    assert!(!is_run_log("notes.txt"));
    assert!(!is_run_log(".json"));
}
