use dotman::self_update::{
    is_newer, parse_version, plan_update, release_target, release_url, verify_checksum,
    UpdateStep, GITHUB_API, GITHUB_DOWNLOAD,
};
use flate2::{write::GzEncoder, Compression};
use sha2::{Digest, Sha256};

fn archive(binary: &[u8]) -> Vec<u8> {
    let encoder = GzEncoder::new(Vec::new(), Compression::default());
    let mut builder = tar::Builder::new(encoder);
    let mut header = tar::Header::new_gnu();
    header.set_size(binary.len() as u64);
    header.set_mode(0o755);
    header.set_cksum();
    builder.append_data(&mut header, "dotman", binary).unwrap();
    builder.into_inner().unwrap().finish().unwrap()
}

fn hex(bytes: &[u8]) -> String {
    bytes.iter().map(|b| format!("{b:02x}")).collect()
}

#[test]
fn verifies_release_checksum() {
    let bytes = archive(b"new binary");
    let checksum = format!("{}  artifact.tar.gz\n", hex(&Sha256::digest(&bytes)));
    verify_checksum(&bytes, checksum.as_bytes()).unwrap();
    let upper = checksum.to_uppercase();
    verify_checksum(&bytes, upper.as_bytes()).unwrap();
}

#[test]
fn rejects_bad_checksum_without_installing() {
    let bytes = archive(b"new binary");
    assert!(verify_checksum(
        &bytes,
        b"aaaaaaaaaaaaaaaaaaaaaaaaaaaaaaaaaaaaaaaaaaaaaaaaaaaaaaaaaaaaaaaa  x"
    )
    .is_err());
}

#[test]
fn checksum_errors_name_what_is_wrong() {
    let bytes = archive(b"new binary");
    assert_eq!(
        verify_checksum(&bytes, b"aaaaaaaaaaaaaaaaaaaaaaaaaaaaaaaaaaaaaaaaaaaaaaaaaaaaaaaaaaaaaaaa  x").unwrap_err(),
        "release artifact checksum verification failed"
    );
    assert_eq!(verify_checksum(&bytes, &[0xff, 0xfe]).unwrap_err(), "checksum file is not valid UTF-8");
    assert_eq!(
        verify_checksum(&bytes, b"abc artifact").unwrap_err(),
        "checksum file does not contain a valid SHA-256 digest"
    );
    assert_eq!(
        verify_checksum(&bytes, b"   \n").unwrap_err(),
        "checksum file does not contain a valid SHA-256 digest"
    );
    let not_hex = "g".repeat(64);
    assert_eq!(
        verify_checksum(&bytes, not_hex.as_bytes()).unwrap_err(),
        "checksum file does not contain a valid SHA-256 digest"
    );
}

#[test]
fn compares_versions_with_optional_v_prefix() {
    assert!(is_newer(&parse_version("v0.3.0").unwrap(), &parse_version("0.2.0").unwrap()));
    assert!(!is_newer(&parse_version("0.2.0").unwrap(), &parse_version("v0.3.0").unwrap()));
    assert!(!is_newer(&parse_version("1.0.0").unwrap(), &parse_version("1.0.0").unwrap()));
    assert!(is_newer(&parse_version("1.0.0").unwrap(), &parse_version("1.0.0-rc.1").unwrap()));
}

#[test]
fn parse_version_trims_and_drops_one_v() {
    assert_eq!(parse_version(" v1.2.3 \n").unwrap().text(), "1.2.3");
    assert_eq!(
        parse_version("x").err().unwrap(),
        "invalid release version 'x': unexpected character 'x' while parsing major version number"
    );
    assert_eq!(
        parse_version("").err().unwrap(),
        "invalid release version '': empty string, expected a semver version"
    );
}

#[test]
fn release_targets_cover_the_built_platforms() {
    assert_eq!(release_target("aarch64", "macos"), Ok("aarch64-apple-darwin"));
    assert_eq!(release_target("x86_64", "macos"), Ok("x86_64-apple-darwin"));
    assert_eq!(release_target("aarch64", "linux"), Ok("aarch64-unknown-linux-gnu"));
    assert_eq!(release_target("x86_64", "linux"), Ok("x86_64-unknown-linux-gnu"));
    assert_eq!(release_target("riscv64", "linux"), Err("self-update is not supported on linux/riscv64".to_string()));
}

#[test]
fn plan_update_fetches_only_newer_releases() {
    assert_eq!(release_url(GITHUB_API), "https://api.github.com/repos/tabsp/dotfiles/releases/latest");
    match plan_update("0.2.0", "v0.3.0", "x86_64", "linux", GITHUB_DOWNLOAD).unwrap() {
        UpdateStep::Fetch { artifact_url, checksum_url, announce, done } => {
            assert_eq!(
                artifact_url,
                "https://github.com/tabsp/dotfiles/releases/download/v0.3.0/dotman-x86_64-unknown-linux-gnu.tar.gz"
            );
            assert_eq!(checksum_url, format!("{artifact_url}.sha256"));
            assert_eq!(announce, "Updating dotman 0.2.0 -> 0.3.0 (x86_64-unknown-linux-gnu)...");
            assert_eq!(done, "dotman updated successfully to 0.3.0.");
        }
        other => panic!("unexpected {other:?}"),
    }
    match plan_update("0.3.0", "v0.3.0", "x86_64", "linux", GITHUB_DOWNLOAD).unwrap() {
        UpdateStep::UpToDate(m) => assert_eq!(m, "dotman 0.3.0 is already the latest version."),
        other => panic!("unexpected {other:?}"),
    }
    assert_eq!(
        plan_update("0.2.0", "v0.3.0", "sparc", "linux", GITHUB_DOWNLOAD).unwrap_err(),
        "self-update is not supported on linux/sparc"
    );
    assert!(plan_update("0.2.0", "latest", "x86_64", "linux", GITHUB_DOWNLOAD)
        .unwrap_err()
        .starts_with("invalid release version 'latest': "));
}
