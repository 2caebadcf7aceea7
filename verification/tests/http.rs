use dotman::http::{validate_final_https, validate_manifest_https};

#[test]
fn validate_manifest_https_accepts_https() {
    assert!(validate_manifest_https("https://example.com/file").is_ok());
}

#[test]
fn validate_manifest_https_rejects_non_https() {
    let err = validate_manifest_https("http://example.com/file").expect_err("must fail");
    assert!(err.contains("must use https"));
}

#[test]
fn validate_final_https_rejects_non_https() {
    let err = validate_final_https("ftp://example.com/file").expect_err("must fail");
    assert!(err.contains("final url must use https"));
}

#[test]
fn https_errors_name_the_url() {
    assert_eq!(
        validate_manifest_https("http://x").unwrap_err(),
        "url must use https: http://x"
    );
    assert_eq!(validate_final_https("https://x"), Ok(()));
}
