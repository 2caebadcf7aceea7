use dotman::doctor::{doctor_findings, doctor_result, DepProbe, FileProbe, LinkState};
use dotman::doctor::extract_version;

#[test]
fn extract_version_handles_multiline_eza_output() {
    let text = "eza - A modern, maintained replacement for ls\nv0.23.4 [+git]\n";
    let version = extract_version(text, r"(?m)^v?([0-9]+\.[0-9]+\.[0-9]+)").expect("version");
    assert_eq!(version, "0.23.4");
}

#[test]
fn extract_version_handles_localized_fish_output() {
    let text = "fish，版本 4.7.1\n";
    let version = extract_version(text, r"fish[，,]\s*(?:version|版本)\s+([0-9]+\.[0-9]+\.[0-9]+)")
        .expect("version");
    assert_eq!(version, "4.7.1");
}

#[test]
fn extract_version_handles_capitalized_yazi_output() {
    let text = "Yazi 26.5.6 (aa52643 2026-05-05)\n";
    let version = extract_version(text, r"(?i)yazi\s+([0-9]+\.[0-9]+\.[0-9]+)").expect("version");
    assert_eq!(version, "26.5.6");
}

#[test]
fn extract_version_reports_bad_patterns_and_misses() {
    assert_eq!(
        extract_version("tool 1.2.3", r"([0-9]+)\.([0-9]+)\.([0-9]+) nope").unwrap_err(),
        "version output did not match regex"
    );
    assert!(extract_version("tool 1.2.3", r"(unclosed").unwrap_err().starts_with("invalid version regex: "));
}

#[test]
fn doctor_findings_sort_dependencies_and_links() {
    let dep = |name: &str, found: bool, version: Option<Result<String, String>>, expected: &str| DepProbe {
        name: name.into(),
        command: name.into(),
        found,
        version,
        expected: expected.into(),
    };
    let deps = vec![
        dep("git", false, None, "latest"),
        dep("fish", true, Some(Ok("4.0.0".into())), "3.7.0"),
        dep("eza", true, Some(Ok("0.23.4".into())), "latest"),
        dep("yazi", true, Some(Err("version output did not match regex".into())), "1.0.0"),
    ];
    let files = vec![
        FileProbe { target: "/h/.a".into(), expected: "/r/a".into(), state: LinkState::Points { actual: "/r/a".into(), matches: true } },
        FileProbe { target: "/h/.b".into(), expected: "/r/b".into(), state: LinkState::Points { actual: "/x".into(), matches: false } },
        FileProbe { target: "/h/.c".into(), expected: "/r/c".into(), state: LinkState::NotLink },
        FileProbe { target: "/h/.d".into(), expected: "/r/d".into(), state: LinkState::Absent },
    ];
    let f = doctor_findings(&deps, &files);
    assert_eq!(f.ok, vec!["fish: command fish", "eza: command eza", "eza: version 0.23.4", "yazi: command yazi", "link /h/.a -> /r/a"]);
    assert_eq!(f.warnings, vec!["fish: version drift installed=4.0.0 expected=3.7.0"]);
    assert_eq!(
        f.errors,
        vec![
            "git: missing command git",
            "yazi: version output did not match regex",
            "wrong link /h/.b -> /x, expected /r/b",
            "target exists but is not a symlink: /h/.c",
            "missing target symlink: /h/.d",
        ]
    );
    assert_eq!(doctor_result(&f), Err("doctor found 5 hard error(s)".to_string()));
}
