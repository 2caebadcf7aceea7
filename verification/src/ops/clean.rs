//! Clean operation: symlink-only by default, `force` for files and directories.

use vstd::prelude::*;

verus! {

/// What cleaning a target does.
#[derive(Debug)]
pub enum CleanAction {
    Skip,
    RemoveSymlink,
    BackupAndRemove(String),
}

/// The clean decision for a target, given what the filesystem holds there:
/// nothing there is skipped, a symlink is removed, anything else is backed
/// up to `backup` and removed only when forced.
pub fn plan_clean(exists: bool, is_symlink: bool, force: bool, backup: String) -> (r: CleanAction)
    ensures
        !exists && !is_symlink ==> r is Skip,
        is_symlink ==> r is RemoveSymlink,
        exists && !is_symlink && !force ==> r is Skip,
        exists && !is_symlink && force ==> r == CleanAction::BackupAndRemove(backup),
{
    if !exists && !is_symlink {
        return CleanAction::Skip;
    }
    if is_symlink {
        return CleanAction::RemoveSymlink;
    }
    if !force {
        return CleanAction::Skip;
    }
    CleanAction::BackupAndRemove(backup)
}

} // verus!
