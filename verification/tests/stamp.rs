use dotman::stamp::{config_hash, hex_lower, now_iso};

#[test]
fn config_hash_is_the_hex_sha256_of_the_contents() {
    assert_eq!(
        config_hash(Some(b"abc")),
        "ba7816bf8f01cfea414140de5dae2223b00361a396177a9cb410ff61f20015ad"
    );
    assert_eq!(config_hash(None), "");
}

#[test]
fn hex_is_lowercase_two_digits_per_byte() {
    assert_eq!(hex_lower(&[0x00, 0xab, 0x0f]), "00ab0f");
}

#[test]
fn timestamps_are_rfc3339() {
    let t = now_iso();
    assert!(t.len() >= 20, "got {t}");
    assert_eq!(&t[4..5], "-");
    assert_eq!(&t[10..11], "T");
}

#[test]
fn now_iso_is_rfc3339_shaped() {
    let t = now_iso();
    let b = t.as_bytes();
    assert!(b.len() > 19);
    assert_eq!(b[4], b'-');
    assert_eq!(b[7], b'-');
    assert_eq!(b[10], b'T');
    assert_eq!(b[13], b':');
    assert_eq!(b[16], b':');
    assert!(t.ends_with('Z') || t.as_bytes()[t.len() - 3] == b':');
}
