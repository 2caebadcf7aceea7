//! Archive kinds, and the rule that an archive entry stays inside the
//! directory it is unpacked into.

use vstd::prelude::*;
use crate::ops::link::PathComponent;
use crate::path::{join, join_path};
use crate::text::{chars_of, join as text_join, join_with, str_eq, str_views, string_of, views};

verus! {

/// How a downloaded payload is packed.
#[derive(Debug, Clone, Copy, PartialEq, Eq, Structural)]
pub enum ArchiveKind {
    Raw,
    TarGz,
    TarXz,
    Zip,
}

/// The archive kind a manifest value names.
pub open spec fn archive_kind_of(value: Seq<char>) -> Option<ArchiveKind> {
    if value == "raw"@ {
        Some(ArchiveKind::Raw)
    } else if value == "tar.gz"@ {
        Some(ArchiveKind::TarGz)
    } else if value == "tar.xz"@ {
        Some(ArchiveKind::TarXz)
    } else if value == "zip"@ {
        Some(ArchiveKind::Zip)
    } else {
        None
    }
}

/// The archive kind a manifest value names, or an error naming the value.
pub fn parse_archive_kind(value: &str) -> (r: Result<ArchiveKind, String>)
    ensures
        match archive_kind_of(value@) {
            Some(k) => r == Ok::<ArchiveKind, String>(k),
            None => r matches Err(e) && e@ == "unsupported archive_kind: "@ + value@,
        },
{
    if str_eq(value, "raw") {
        Ok(ArchiveKind::Raw)
    } else if str_eq(value, "tar.gz") {
        Ok(ArchiveKind::TarGz)
    } else if str_eq(value, "tar.xz") {
        Ok(ArchiveKind::TarXz)
    } else if str_eq(value, "zip") {
        Ok(ArchiveKind::Zip)
    } else {
        let mut e = String::from_str("unsupported archive_kind: ");
        e.append(value);
        Err(e)
    }
}

/// How an entry path's components fail to stay inside the destination:
/// `Some(true)` for a root or prefix (absolute), `Some(false)` for a `..`
/// that climbs above it, `None` when it stays inside. `depth` is the
/// number of names entered so far.
pub open spec fn escape_of(c: Seq<PathComponent>, depth: int) -> Option<bool>
    decreases c.len(),
{
    if c.len() == 0 {
        None
    } else {
        match c[0] {
            PathComponent::ParentDir => if depth - 1 < 0 {
                Some(false)
            } else {
                escape_of(c.drop_first(), depth - 1)
            },
            PathComponent::Normal(_) => escape_of(c.drop_first(), depth + 1),
            PathComponent::RootDir | PathComponent::Prefix => Some(true),
            PathComponent::CurDir => escape_of(c.drop_first(), depth),
        }
    }
}

proof fn lemma_escape_skip(c: Seq<PathComponent>, i: int, depth: int)
    requires
        0 <= i < c.len(),
    ensures
        c.skip(i).drop_first() == c.skip(i + 1),
        c.skip(i)[0] == c[i],
{
    assert(c.skip(i).drop_first() =~= c.skip(i + 1));
}

/// Checks an archive entry's path components: it must be relative and never
/// climb above the destination. `display` is the path as shown in errors.
pub fn check_entry_components(components: &Vec<PathComponent>, display: &str) -> (r: Result<(), String>)
    requires
        components@.len() < i32::MAX,
    ensures
        match escape_of(components@, 0) {
            None => r is Ok,
            Some(true) => r matches Err(e) && e@ == "DOTMAN_EXTRACT_PATH_TRAVERSAL: archive entry has absolute path: "@
                + display@,
            Some(false) => r matches Err(e) && e@
                == "DOTMAN_EXTRACT_PATH_TRAVERSAL: archive entry escapes destination: "@ + display@,
        },
{
    let mut depth: i32 = 0;
    let mut i: usize = 0;
    assert(components@.skip(0) =~= components@);
    while i < components.len()
        invariant
            i <= components@.len(),
            components@.len() < i32::MAX,
            0 <= depth <= i,
            escape_of(components@, 0) == escape_of(components@.skip(i as int), depth as int),
        decreases components@.len() - i,
    {
        proof {
            lemma_escape_skip(components@, i as int, depth as int);
        }
        match &components[i] {
            PathComponent::ParentDir => {
                if depth - 1 < 0 {
                    let mut e = String::from_str("DOTMAN_EXTRACT_PATH_TRAVERSAL: archive entry escapes destination: ");
                    e.append(display);
                    return Err(e);
                }
                depth = depth - 1;
            },
            PathComponent::Normal(_) => {
                depth = depth + 1;
            },
            PathComponent::RootDir | PathComponent::Prefix => {
                let mut e = String::from_str("DOTMAN_EXTRACT_PATH_TRAVERSAL: archive entry has absolute path: ");
                e.append(display);
                return Err(e);
            },
            PathComponent::CurDir => {},
        }
        i += 1;
    }
    Ok(())
}

/// Where an archive entry is unpacked: the destination joined with the
/// entry's path, once its components (`components`, as `Path::components`
/// gives them for `entry`) are checked to stay inside the destination.
pub fn entry_destination(dest: &str, entry: &str, components: &Vec<PathComponent>) -> (r: Result<String, String>)
    requires
        components@.len() < i32::MAX,
    ensures
        match escape_of(components@, 0) {
            None => r matches Ok(p) && p@ == join_path(dest@, entry@),
            Some(true) => r matches Err(e) && e@ == "DOTMAN_EXTRACT_PATH_TRAVERSAL: archive entry has absolute path: "@
                + entry@,
            Some(false) => r matches Err(e) && e@
                == "DOTMAN_EXTRACT_PATH_TRAVERSAL: archive entry escapes destination: "@ + entry@,
        },
{
    match check_entry_components(components, entry) {
        Ok(()) => Ok(join(dest, entry)),
        Err(e) => Err(e),
    }
}

/// `prefix` is a leading part of `path`, component by component.
pub open spec fn components_prefix(path: Seq<Seq<char>>, prefix: Seq<Seq<char>>) -> bool {
    prefix.len() <= path.len() && path.take(prefix.len() as int) == prefix
}

/// Where the installed binary of a directory install lives: the binary's
/// path inside the unpacked `install_dir_from`, placed under
/// `install_dir_to`. Paths are given as their component texts; the binary
/// must lie inside `install_dir_from`.
pub fn archive_binary_target(binary_path: &Vec<String>, install_dir_from: &Vec<String>, install_dir_to: &str) -> (r: Result<String, String>)
    ensures
        components_prefix(str_views(binary_path@), str_views(install_dir_from@)) ==> (r matches Ok(t) && t@ == join_path(
            install_dir_to@,
            join_with(str_views(binary_path@).skip(install_dir_from@.len() as int), "/"@),
        )),
        !components_prefix(str_views(binary_path@), str_views(install_dir_from@)) ==> (r matches Err(e) && e@
            == "binary_path must be inside install_dir_from"@),
{
    let n = install_dir_from.len();
    if n > binary_path.len() {
        return Err(String::from_str("binary_path must be inside install_dir_from"));
    }
    let mut i: usize = 0;
    while i < n
        invariant
            i <= n,
            n == install_dir_from@.len(),
            n <= binary_path@.len(),
            forall|k: int| 0 <= k < i ==> (#[trigger] binary_path@[k])@ == install_dir_from@[k]@,
        decreases n - i,
    {
        if !str_eq(binary_path[i].as_str(), install_dir_from[i].as_str()) {
            proof {
                assert(str_views(binary_path@).take(n as int)[i as int] != str_views(install_dir_from@)[i as int]);
            }
            return Err(String::from_str("binary_path must be inside install_dir_from"));
        }
        i += 1;
    }
    proof {
        assert(str_views(binary_path@).take(n as int) =~= str_views(install_dir_from@));
    }
    let mut rest: Vec<Vec<char>> = Vec::new();
    let mut k: usize = n;
    while k < binary_path.len()
        invariant
            n <= k <= binary_path@.len(),
            views(rest@) == str_views(binary_path@).subrange(n as int, k as int),
        decreases binary_path@.len() - k,
    {
        let ghost before = rest@;
        let c = chars_of(binary_path[k].as_str());
        rest.push(c);
        proof {
            assert(views(rest@) =~= views(before).push(c@));
            assert(views(rest@) =~= str_views(binary_path@).subrange(n as int, k + 1));
        }
        k += 1;
    }
    proof {
        assert(str_views(binary_path@).subrange(n as int, binary_path@.len() as int) =~= str_views(binary_path@).skip(n as int));
        reveal_strlit("/");
    }
    let sep = chars_of("/");
    let relative = text_join(&rest, sep.as_slice());
    Ok(join(install_dir_to, string_of(relative.as_slice()).as_str()))
}

} // verus!
