use dotman::path::{expand_home, join};
use std::path::Path;

#[test]
fn expand_home_preserves_absolute_path() {
    let result = expand_home("/usr/local/bin", Some("/home/user")).unwrap();
    assert_eq!(result, "/usr/local/bin");
}

#[test]
fn expand_home_replaces_tilde() {
    let home = "/home/user";
    let result = expand_home("~/test", Some(home)).unwrap();
    assert_eq!(Path::new(&result), Path::new(home).join("test"));
}

#[test]
fn expand_home_preserves_dot() {
    let result = expand_home("./config", None).unwrap();
    assert_eq!(result, "./config");
}

#[test]
fn expand_home_accepts_just_tilde_slash() {
    let home = "/home/user";
    let result = expand_home("~/", Some(home)).unwrap();
    assert_eq!(Path::new(&result), Path::new(home));
}

#[test]
fn expand_home_without_home_fails_only_for_tilde() {
    assert_eq!(expand_home("~/x", None), Err("HOME is not set".to_string()));
    assert_eq!(join("/a", "/b"), "/b");
    assert_eq!(join("/a/", "b"), "/a/b");
    assert_eq!(join("", "b"), "b");
}
