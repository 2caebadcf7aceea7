use dotman::status::source_checkout_at;
use std::path::Path;

#[test]
fn collect_source_checkout_returns_none_when_missing() {
    let path = "/nonexistent/path/should/not/exist";
    let result = source_checkout_at(path, Path::new(path).exists(), false);
    assert!(result.is_none());
}

#[test]
fn source_checkout_reports_a_git_checkout() {
    let entry = source_checkout_at("/repo", true, true).expect("entry");
    assert_eq!(entry.path, "/repo");
    assert_eq!(entry.certainty, "detected");
    assert!(entry.is_git_repo);
}
