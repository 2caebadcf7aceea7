//! The rule that downloads only ever use HTTPS.

use vstd::prelude::*;
use crate::text::{chars_of, has_prefix, starts_with};

verus! {

fn is_https(url: &str) -> (r: bool)
    ensures
        r == has_prefix(url@, "https://"@),
{
    starts_with(chars_of(url).as_slice(), chars_of("https://").as_slice())
}

/// A URL from a manifest must use HTTPS.
pub fn validate_manifest_https(url: &str) -> (r: Result<(), String>)
    ensures
        r is Ok <==> has_prefix(url@, "https://"@),
        r matches Err(e) ==> e@ == "url must use https: "@ + url@,
{
    if is_https(url) {
        return Ok(());
    }
    let mut e = String::from_str("url must use https: ");
    e.append(url);
    Err(e)
}

/// The URL a download ends at, after redirects, must use HTTPS.
pub fn validate_final_https(url: &str) -> (r: Result<(), String>)
    ensures
        r is Ok <==> has_prefix(url@, "https://"@),
        r matches Err(e) ==> e@ == "final url must use https: "@ + url@,
{
    if is_https(url) {
        return Ok(());
    }
    let mut e = String::from_str("final url must use https: ");
    e.append(url);
    Err(e)
}

} // verus!
