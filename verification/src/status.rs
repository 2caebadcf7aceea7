//! What the status report says about a source checkout.

use vstd::prelude::*;

verus! {

/// A dotfiles source checkout found on disk.
#[derive(Debug)]
pub struct SourceCheckoutEntry {
    pub path: String,
    pub certainty: String,
    pub is_git_repo: bool,
}

/// The checkout entry for `path`: none when nothing is there; else the path,
/// marked as detected, and whether it holds a `.git` directory.
pub fn source_checkout_at(path: &str, exists: bool, has_git_dir: bool) -> (r: Option<
    SourceCheckoutEntry,
>)
    ensures
        match r {
            Some(e) => exists && e.path@ == path@ && e.certainty@ == "detected"@ && e.is_git_repo
                == has_git_dir,
            None => !exists,
        },
{
    if !exists {
        return None;
    }
    Some(
        SourceCheckoutEntry {
            path: String::from_str(path),
            certainty: String::from_str("detected"),
            is_git_repo: has_git_dir,
        },
    )
}

} // verus!
