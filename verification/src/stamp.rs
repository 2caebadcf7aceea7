//! Identifiers, timestamps and content hashes that a plan is stamped with.

use vstd::prelude::*;
use sha2::Digest;

verus! {

#[verifier::external_type_specification]
#[verifier::external_body]
pub struct ExUlid(ulid::Ulid);

#[verifier::external_type_specification]
#[verifier::external_body]
pub struct ExOffsetDateTime(time::OffsetDateTime);

#[verifier::external_type_specification]
#[verifier::external_body]
pub struct ExIndeterminateOffset(time::error::IndeterminateOffset);

/// The characters of the Crockford base32 alphabet that ULIDs are written in.
pub open spec fn ulid_char(c: char) -> bool {
    "0123456789ABCDEFGHJKMNPQRSTVWXYZ"@.contains(c)
}

/// `ulid::Ulid::generate`: a ULID from the current time and fresh
/// randomness. Nothing is claimed of its value.
#[verifier::external_body]
fn generate_ulid() -> (r: ulid::Ulid) {
    ulid::Ulid::generate()
}

/// `ulid::Ulid::to_string`: the ULID's canonical text, which the crate
/// writes as 26 characters of the Crockford base32 alphabet.
#[verifier::external_body]
fn ulid_text(u: &ulid::Ulid) -> (r: String)
    ensures
        r@.len() == 26,
        forall|i: int| 0 <= i < 26 ==> ulid_char(#[trigger] r@[i]),
{
    u.to_string()
}

/// A fresh plan or run id: a new ULID in its canonical 26-character form.
pub fn new_run_id() -> (r: String)
    ensures
        r@.len() == 26,
        forall|i: int| 0 <= i < 26 ==> ulid_char(#[trigger] r@[i]),
{
    let u = generate_ulid();
    ulid_text(&u)
}

/// `time::OffsetDateTime::now_local`: the current time in the local offset,
/// or an error when the offset cannot be determined. Nothing is claimed of
/// the value.
#[verifier::external_body]
fn local_now() -> (r: Result<time::OffsetDateTime, time::error::IndeterminateOffset>) {
    time::OffsetDateTime::now_local()
}

/// `time::OffsetDateTime::now_utc`: the current time in UTC. Nothing is
/// claimed of the value.
#[verifier::external_body]
fn utc_now() -> (r: time::OffsetDateTime) {
    time::OffsetDateTime::now_utc()
}

/// An ASCII decimal digit.
pub open spec fn is_digit(c: char) -> bool {
    '0' <= c && c <= '9'
}

/// `s` starts as RFC 3339 text does, `YYYY-MM-DDTHH:MM:SS`, and goes on
/// (with a fraction of a second and an offset).
pub open spec fn rfc3339_head(s: Seq<char>) -> bool {
    &&& s.len() > 19
    &&& is_digit(s[0]) && is_digit(s[1]) && is_digit(s[2]) && is_digit(s[3])
    &&& s[4] == '-' && is_digit(s[5]) && is_digit(s[6])
    &&& s[7] == '-' && is_digit(s[8]) && is_digit(s[9])
    &&& s[10] == 'T' && is_digit(s[11]) && is_digit(s[12])
    &&& s[13] == ':' && is_digit(s[14]) && is_digit(s[15])
    &&& s[16] == ':' && is_digit(s[17]) && is_digit(s[18])
}

/// `time::OffsetDateTime::format` with the RFC 3339 description: the text,
/// or `None` where the crate reports a formatting error. The text starts with
/// the zero-padded date and time, `YYYY-MM-DDTHH:MM:SS`, and ends with the
/// offset (`Z` or `±HH:MM`); which date and time it shows is not stated.
#[verifier::external_body]
fn format_rfc3339(t: &time::OffsetDateTime) -> (r: Option<String>)
    ensures
        r matches Some(s) ==> rfc3339_head(s@),
{
    t.format(&time::format_description::well_known::Rfc3339).ok()
}

/// The current time as RFC 3339 text, in the local offset when it can be
/// determined and in UTC otherwise; empty when it cannot be formatted.
pub fn now_iso() -> (r: String)
    ensures
        r@.len() == 0 || rfc3339_head(r@),
{
    let t = match local_now() {
        Ok(t) => t,
        Err(_) => utc_now(),
    };
    match format_rfc3339(&t) {
        Some(s) => s,
        None => String::new(),
    }
}

/// The SHA-256 digest of a byte string.
pub uninterp spec fn sha256_of(data: Seq<u8>) -> Seq<u8>;

/// `sha2::Sha256::digest`: the SHA-256 digest of `data`, 32 bytes long.
#[verifier::external_body]
pub(crate) fn sha256_digest(data: &[u8]) -> (r: Vec<u8>)
    ensures
        r@ == sha256_of(data@),
        r@.len() == 32,
{
    sha2::Sha256::digest(data).to_vec()
}

/// The lowercase hexadecimal digits.
pub open spec fn hex_digits() -> Seq<char> {
    "0123456789abcdef"@
}

/// Bytes as lowercase hexadecimal text, two digits per byte, high nibble first.
pub open spec fn hex_text(bytes: Seq<u8>) -> Seq<char>
    decreases bytes.len(),
{
    if bytes.len() == 0 {
        Seq::empty()
    } else {
        let b = bytes.last();
        hex_text(bytes.drop_last()) + seq![hex_digits()[(b / 16) as int], hex_digits()[(b % 16) as int]]
    }
}

proof fn lemma_hex_text_len(bytes: Seq<u8>)
    ensures
        hex_text(bytes).len() == 2 * bytes.len(),
    decreases bytes.len(),
{
    if bytes.len() > 0 {
        lemma_hex_text_len(bytes.drop_last());
    }
}

/// Bytes as lowercase hexadecimal text.
pub fn hex_lower(bytes: &[u8]) -> (r: String)
    ensures
        r@ == hex_text(bytes@),
        r@.len() == 2 * bytes@.len(),
{
    let digits = crate::text::chars_of("0123456789abcdef");
    proof {
        reveal_strlit("0123456789abcdef");
        assert(digits@.len() == 16);
    }
    let mut r = String::new();
    let mut i: usize = 0;
    while i < bytes.len()
        invariant
            i <= bytes@.len(),
            digits@ == hex_digits(),
            digits@.len() == 16,
            r@ == hex_text(bytes@.take(i as int)),
        decreases bytes@.len() - i,
    {
        let b = bytes[i];
        crate::text::push_char(&mut r, digits[(b / 16) as usize]);
        crate::text::push_char(&mut r, digits[(b % 16) as usize]);
        proof {
            assert(bytes@.take(i + 1).drop_last() =~= bytes@.take(i as int));
            assert(bytes@.take(i + 1).last() == b);
        }
        i += 1;
    }
    proof {
        assert(bytes@.take(bytes@.len() as int) =~= bytes@);
        lemma_hex_text_len(bytes@);
    }
    r
}

/// The hash a plan records of its configuration file's contents: the
/// lowercase hexadecimal SHA-256 digest, or empty text when the file could
/// not be read.
pub open spec fn config_hash_spec(contents: Option<Seq<u8>>) -> Seq<char> {
    match contents {
        Some(b) => hex_text(sha256_of(b)),
        None => Seq::empty(),
    }
}

/// The hash a plan records of its configuration file's contents.
pub fn config_hash(contents: Option<&[u8]>) -> (r: String)
    ensures
        r@ == config_hash_spec(
            match contents {
                Some(b) => Some(b@),
                None => None,
            },
        ),
{
    match contents {
        Some(b) => {
            let d = sha256_digest(b);
            hex_lower(d.as_slice())
        },
        None => String::new(),
    }
}

} // verus!
