use dotman::archive::entry_destination;
use dotman::archive::archive_binary_target;
use dotman::archive::{check_entry_components, parse_archive_kind, ArchiveKind};
use dotman::ops::link::PathComponent;
use std::path::{Component, Path};

fn components(p: &str) -> Vec<PathComponent> {
    Path::new(p)
        .components()
        .map(|c| match c {
            Component::Prefix(_) => PathComponent::Prefix,
            Component::RootDir => PathComponent::RootDir,
            Component::CurDir => PathComponent::CurDir,
            Component::ParentDir => PathComponent::ParentDir,
            Component::Normal(v) => PathComponent::Normal(v.to_string_lossy().to_string()),
        })
        .collect()
}

#[test]
fn parse_archive_kind_supports_expected_values() {
    assert!(matches!(parse_archive_kind("raw"), Ok(ArchiveKind::Raw)));
    assert!(matches!(parse_archive_kind("tar.gz"), Ok(ArchiveKind::TarGz)));
    assert!(matches!(parse_archive_kind("tar.xz"), Ok(ArchiveKind::TarXz)));
    assert!(matches!(parse_archive_kind("zip"), Ok(ArchiveKind::Zip)));
}

#[test]
fn parse_archive_kind_rejects_unknown_value() {
    match parse_archive_kind("rar") {
        Ok(_) => panic!("expected parse failure"),
        Err(err) => assert!(err.contains("unsupported archive_kind")),
    }
}

#[test]
fn validate_entry_path_rejects_traversal() {
    let err = check_entry_components(&components("../escape"), "../escape").expect_err("should fail");
    assert!(err.contains("DOTMAN_EXTRACT_PATH_TRAVERSAL"), "got: {err}");
}

#[test]
fn validate_entry_path_rejects_deep_traversal() {
    let err = check_entry_components(&components("foo/../../../escape"), "foo/../../../escape")
        .expect_err("should fail");
    assert!(err.contains("DOTMAN_EXTRACT_PATH_TRAVERSAL"), "got: {err}");
}

#[test]
fn validate_entry_path_accepts_normal_path() {
    assert!(check_entry_components(&components("some/dir/file"), "some/dir/file").is_ok());
}

#[test]
fn validate_entry_path_accepts_sibling_via_normalization() {
    assert!(check_entry_components(&components("foo/../bar"), "foo/../bar").is_ok());
}

#[test]
fn absolute_entry_is_reported_as_absolute() {
    let err = check_entry_components(&components("/etc/passwd"), "/etc/passwd").unwrap_err();
    assert_eq!(
        err,
        "DOTMAN_EXTRACT_PATH_TRAVERSAL: archive entry has absolute path: /etc/passwd"
    );
}

#[test]
fn accepted_entries_land_under_the_destination() {
    assert_eq!(entry_destination("/dest", "some/dir/file", &components("some/dir/file")).unwrap(), "/dest/some/dir/file");
    assert_eq!(entry_destination("/dest", "foo/../bar", &components("foo/../bar")).unwrap(), "/dest/foo/../bar");
    assert!(entry_destination("/dest", "../escape", &components("../escape")).unwrap_err().starts_with("DOTMAN_EXTRACT_PATH_TRAVERSAL:"));
}

#[test]
fn archive_binary_must_lie_inside_the_installed_directory() {
    let v = |s: &[&str]| s.iter().map(|x| x.to_string()).collect::<Vec<String>>();
    assert_eq!(
        archive_binary_target(&v(&["nvim-linux64", "bin", "nvim"]), &v(&["nvim-linux64"]), "/home/u/.local/nvim").unwrap(),
        "/home/u/.local/nvim/bin/nvim"
    );
    assert_eq!(
        archive_binary_target(&v(&["other", "nvim"]), &v(&["nvim-linux64"]), "/x").unwrap_err(),
        "binary_path must be inside install_dir_from"
    );
}
