//! Installer helpers: script arguments, payload checksums and key formats.

use vstd::prelude::*;
use crate::path::{expand_home, expand_home_spec};
use crate::stamp::{hex_lower, hex_text, sha256_digest, sha256_of};
use crate::text::{ascii_lower_seq, chars_eq, chars_of, has_prefix, opt_view, starts_with, string_of, to_ascii_lowercase};

verus! {

/// A script argument with a leading `~/` expanded to the home directory;
/// anything else (`$HOME`, a `~` further in) is kept as written.
pub fn expand_script_arg(arg: &str, home: Option<&str>) -> (r: Result<String, String>)
    ensures
        match r {
            Ok(s) => expand_home_spec(arg@, opt_view(home)) == Ok::<Seq<char>, ()>(s@),
            Err(e) => expand_home_spec(arg@, opt_view(home)) is Err && e@ == "HOME is not set"@,
        },
{
    expand_home(arg, home)
}

/// Expands every script argument, or fails on the first that cannot be.
pub fn expand_script_args(args: &Vec<String>, home: Option<&str>) -> (r: Result<Vec<String>, String>)
    ensures
        match r {
            Ok(v) => v@.len() == args@.len() && forall|k: int|
                0 <= k < args@.len() ==> expand_home_spec((#[trigger] args@[k])@, opt_view(home)) == Ok::<
                    Seq<char>,
                    (),
                >(v@[k]@),
            Err(e) => (exists|k: int| 0 <= k < args@.len() && expand_home_spec((#[trigger] args@[k])@, opt_view(home)) is Err)
                && e@ == "HOME is not set"@,
        },
{
    let mut out: Vec<String> = Vec::new();
    let mut i: usize = 0;
    while i < args.len()
        invariant
            i <= args@.len(),
            out@.len() == i,
            forall|k: int|
                0 <= k < i ==> expand_home_spec((#[trigger] args@[k])@, opt_view(home)) == Ok::<Seq<char>, ()>(
                    out@[k]@,
                ),
        decreases args@.len() - i,
    {
        match expand_script_arg(args[i].as_str(), home) {
            Ok(s) => out.push(s),
            Err(e) => {
                return Err(e);
            },
        }
        i += 1;
    }
    Ok(out)
}

/// A payload matches its expected SHA-256 digest, written in hexadecimal in
/// either case.
pub open spec fn digest_matches(bytes: Seq<u8>, expected_hex: Seq<char>) -> bool {
    ascii_lower_seq(hex_text(sha256_of(bytes))) == ascii_lower_seq(expected_hex)
}

/// Checks a payload against its expected SHA-256 digest.
pub fn verify_sha256(bytes: &[u8], expected_hex: &str) -> (r: Result<(), String>)
    ensures
        r is Ok <==> digest_matches(bytes@, expected_hex@),
        r matches Err(e) ==> e@ == "sha256 mismatch: expected "@ + expected_hex@ + ", got "@ + hex_text(
            sha256_of(bytes@),
        ),
{
    let digest = sha256_digest(bytes);
    let actual = hex_lower(digest.as_slice());
    let a = to_ascii_lowercase(chars_of(actual.as_str()).as_slice());
    let b = to_ascii_lowercase(chars_of(expected_hex).as_slice());
    if chars_eq(a.as_slice(), b.as_slice()) {
        Ok(())
    } else {
        let mut e = String::from_str("sha256 mismatch: expected ");
        e.append(expected_hex);
        e.append(", got ");
        e.append(actual.as_str());
        Err(e)
    }
}

/// The bytes an ASCII-armored PGP key starts with: `-----BEGIN PGP`.
pub open spec fn pgp_armor_prefix() -> Seq<u8> {
    seq![45u8, 45u8, 45u8, 45u8, 45u8, 66u8, 69u8, 71u8, 73u8, 78u8, 32u8, 80u8, 71u8, 80u8]
}

/// Whether key material is ASCII-armored (starts with `-----BEGIN PGP`).
pub fn is_armored_pgp_key(bytes: &[u8]) -> (r: bool)
    ensures
        r == (bytes@.len() >= 14 && bytes@.take(14) == pgp_armor_prefix()),
{
    let prefix: [u8; 14] = [45, 45, 45, 45, 45, 66, 69, 71, 73, 78, 32, 80, 71, 80];
    if bytes.len() < 14 {
        return false;
    }
    let mut i: usize = 0;
    while i < 14
        invariant
            i <= 14,
            bytes@.len() >= 14,
            prefix@ == pgp_armor_prefix(),
            forall|k: int| 0 <= k < i ==> bytes@[k] == pgp_armor_prefix()[k],
        decreases 14 - i,
    {
        if bytes[i] != prefix[i] {
            assert(bytes@.take(14)[i as int] != pgp_armor_prefix()[i as int]);
            return false;
        }
        i += 1;
    }
    assert(bytes@.take(14) =~= pgp_armor_prefix());
    true
}

} // verus!
