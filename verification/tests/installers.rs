use dotman::installers::{expand_script_arg, expand_script_args, is_armored_pgp_key, verify_sha256};

#[test]
fn verify_sha256_accepts_expected_hash() {
    let bytes = b"hello-world";
    // SHA-256 of "hello-world".
    let expected = "afa27b44d43b02a9fea41d13cedc2e4016cfcf87c5dbf990e593669aa8ce286d";
    assert!(verify_sha256(bytes, expected).is_ok());
}

#[test]
fn verify_sha256_rejects_mismatch() {
    let err = verify_sha256(b"hello-world", "deadbeef").expect_err("must fail");
    assert!(err.contains("sha256 mismatch"));
}

#[test]
fn expand_script_arg_expands_leading_home() {
    let home = "/home/user";
    assert_eq!(
        expand_script_arg("~/.local/bin", Some(home)).expect("expand"),
        format!("{home}/.local/bin")
    );
}

#[test]
fn expand_script_arg_keeps_env_var_literal() {
    assert_eq!(expand_script_arg("$HOME/.local/bin", Some("/home/user")).expect("expand"), "$HOME/.local/bin");
}

#[test]
fn expand_script_arg_keeps_embedded_tilde_literal() {
    assert_eq!(expand_script_arg("prefix~/path", Some("/home/user")).expect("expand"), "prefix~/path");
}

#[test]
fn expand_script_arg_needs_a_home_for_tilde() {
    assert_eq!(expand_script_arg("~/x", None), Err("HOME is not set".to_string()));
    assert_eq!(
        expand_script_args(&vec!["~/a".to_string(), "b".to_string()], Some("/h")),
        Ok(vec!["/h/a".to_string(), "b".to_string()])
    );
}

#[test]
fn armored_key_is_recognised_by_its_header() {
    assert!(is_armored_pgp_key(b"-----BEGIN PGP PUBLIC KEY BLOCK-----\n"));
    assert!(!is_armored_pgp_key(b"\x99\x01binary"));
}
