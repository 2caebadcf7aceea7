//! Platform detection facts and the package manager decision.

use vstd::prelude::*;
use crate::config::PackageManagerConfig;
use crate::model::clone_opt;
use crate::text::{
    chars_eq, chars_of, has_prefix, lines, lines_of, slice_chars, starts_with, trim, trim_chars,
    trim_char, trim_end, trim_matches_char, trim_start, views,
};

verus! {

/// The operating system family.
#[derive(Debug, Clone, Copy, PartialEq, Eq, Structural)]
pub enum Os {
    Mac,
    Linux,
    Unknown,
}

/// The OS family the program was built for, from the target's OS name
/// (`std::env::consts::OS`): macOS, and Linux for every other target.
pub fn detect_os(target_os: &str) -> (r: Os)
    ensures
        r == if target_os@ == "macos"@ {
            Os::Mac
        } else {
            Os::Linux
        },
{
    if chars_eq(chars_of(target_os).as_slice(), chars_of("macos").as_slice()) {
        Os::Mac
    } else {
        Os::Linux
    }
}

/// The text after `ID=` on the first line of `os-release` lines that starts
/// with it.
pub open spec fn id_line_value(ls: Seq<Seq<char>>) -> Option<Seq<char>>
    decreases ls.len(),
{
    if ls.len() == 0 {
        None
    } else if has_prefix(ls[0], "ID="@) {
        Some(ls[0].skip(3))
    } else {
        id_line_value(ls.drop_first())
    }
}

/// The raw `ID=` value of an `os-release` file.
pub fn os_release_id_value(contents: &str) -> (r: Option<Vec<char>>)
    ensures
        match r {
            Some(v) => id_line_value(lines_of(contents@)) == Some(v@),
            None => id_line_value(lines_of(contents@)) is None,
        },
{
    let v = chars_of(contents);
    let ls = lines(v.as_slice());
    let key = chars_of("ID=");
    proof {
        reveal_strlit("ID=");
    }
    let mut i: usize = 0;
    assert(views(ls@).skip(0) =~= views(ls@));
    while i < ls.len()
        invariant
            i <= ls.len(),
            key@ == "ID="@,
            key@.len() == 3,
            views(ls@) == lines_of(contents@),
            id_line_value(views(ls@)) == id_line_value(views(ls@).skip(i as int)),
        decreases ls.len() - i,
    {
        let ghost rest = views(ls@).skip(i as int);
        assert(rest[0] == ls@[i as int]@);
        if starts_with(ls[i].as_slice(), key.as_slice()) {
            let val = slice_chars(ls[i].as_slice(), 3, ls[i].len());
            assert(val@ =~= rest[0].skip(3));
            return Some(val);
        }
        assert(rest.drop_first() =~= views(ls@).skip(i + 1));
        i += 1;
    }
    assert(views(ls@).skip(i as int) =~= Seq::<Seq<char>>::empty());
    None
}

/// The distro id an `os-release` file names: the `ID=` value, trimmed and
/// unquoted.
pub open spec fn distro_id(contents: Seq<char>) -> Option<Seq<char>> {
    match id_line_value(lines_of(contents)) {
        Some(v) => Some(trim_char(trim(v), '"')),
        None => None,
    }
}

/// The package manager configured for a distro id.
pub open spec fn distro_pkg_mgr(cfg: PackageManagerConfig, id: Seq<char>) -> Option<String> {
    if id == "ubuntu"@ {
        cfg.ubuntu
    } else if id == "debian"@ {
        cfg.debian
    } else if id == "arch"@ {
        cfg.arch
    } else if id == "fedora"@ {
        cfg.fedora
    } else {
        None
    }
}

/// The package manager configured for the current machine.
pub open spec fn pkg_mgr_for(cfg: PackageManagerConfig, os: Os, os_release: Option<Seq<char>>) -> Option<
    String,
> {
    match os {
        Os::Mac => cfg.macos,
        Os::Linux => match os_release {
            Some(c) => match distro_id(c) {
                Some(id) => distro_pkg_mgr(cfg, id),
                None => None,
            },
            None => None,
        },
        Os::Unknown => None,
    }
}

/// The distro `os-release` names is read off its first `ID=` line: when the
/// first line is `ID=` followed by a word with no surrounding blanks or
/// quotes, that word is the distro id.
pub proof fn lemma_distro_id_first_line(c: Seq<char>, id: Seq<char>)
    requires
        lines_of(c).len() > 0,
        lines_of(c)[0] == "ID="@ + id,
        id.len() > 0,
        !crate::text::is_ws(id[0]),
        !crate::text::is_ws(id.last()),
        id[0] != '"',
        id.last() != '"',
    ensures
        distro_id(c) == Some(id),
{
    reveal_strlit("ID=");
    let l = lines_of(c)[0];
    assert(l.take(3) =~= "ID="@);
    assert(has_prefix(l, "ID="@));
    assert(l.skip(3) =~= id);
    assert(trim_start(id) == id);
    assert(trim_end(id) == id);
    assert(trim_char(id, '"') == id);
}

/// Which package manager a machine gets, as laws over every configuration
/// and `os-release`: macOS gets its macOS entry; on Linux, the distro that
/// `os-release` names picks its own entry (ubuntu, debian, arch, fedora);
/// an unlisted distro, an unreadable `os-release` or an unknown OS gets none.
pub proof fn lemma_pkg_mgr_laws(cfg: PackageManagerConfig, c: Seq<char>)
    ensures
        pkg_mgr_for(cfg, Os::Mac, Some(c)) == cfg.macos,
        pkg_mgr_for(cfg, Os::Mac, None) == cfg.macos,
        pkg_mgr_for(cfg, Os::Unknown, Some(c)) is None,
        pkg_mgr_for(cfg, Os::Linux, None) is None,
        distro_id(c) is None ==> pkg_mgr_for(cfg, Os::Linux, Some(c)) is None,
        distro_id(c) == Some("ubuntu"@) ==> pkg_mgr_for(cfg, Os::Linux, Some(c)) == cfg.ubuntu,
        distro_id(c) == Some("debian"@) ==> pkg_mgr_for(cfg, Os::Linux, Some(c)) == cfg.debian,
        distro_id(c) == Some("arch"@) ==> pkg_mgr_for(cfg, Os::Linux, Some(c)) == cfg.arch,
        distro_id(c) == Some("fedora"@) ==> pkg_mgr_for(cfg, Os::Linux, Some(c)) == cfg.fedora,
        (match distro_id(c) {
            Some(id) => id != "ubuntu"@ && id != "debian"@ && id != "arch"@ && id != "fedora"@,
            None => false,
        }) ==> pkg_mgr_for(cfg, Os::Linux, Some(c)) is None,
{
    reveal_strlit("ubuntu");
    reveal_strlit("debian");
    reveal_strlit("arch");
    reveal_strlit("fedora");
    assert("ubuntu"@.len() != "arch"@.len());
    assert("ubuntu"@[0] != "debian"@[0]);
    assert("ubuntu"@[0] != "fedora"@[0]);
    assert("debian"@.len() != "arch"@.len());
    assert("debian"@[0] != "fedora"@[0]);
    assert("arch"@.len() != "fedora"@.len());
}

/// Resolves the configured package manager name for the machine: by OS on
/// macOS, by the distro that `os_release` (the contents of `/etc/os-release`,
/// when readable) names on Linux.
pub fn resolve_pkg_mgr_name(cfg: &PackageManagerConfig, os: Os, os_release: Option<&str>) -> (r:
    Option<String>)
    ensures
        r == pkg_mgr_for(*cfg, os, crate::text::opt_view(os_release)),
{
    match os {
        Os::Mac => clone_opt(&cfg.macos),
        Os::Linux => match os_release {
            Some(contents) => match os_release_id_value(contents) {
                Some(raw) => {
                    let t = trim_chars(raw.as_slice());
                    let id = trim_matches_char(t.as_slice(), '"');
                    proof {
                        reveal_strlit("ubuntu");
                        reveal_strlit("debian");
                        reveal_strlit("arch");
                        reveal_strlit("fedora");
                    }
                    if chars_eq(id.as_slice(), chars_of("ubuntu").as_slice()) {
                        clone_opt(&cfg.ubuntu)
                    } else if chars_eq(id.as_slice(), chars_of("debian").as_slice()) {
                        clone_opt(&cfg.debian)
                    } else if chars_eq(id.as_slice(), chars_of("arch").as_slice()) {
                        clone_opt(&cfg.arch)
                    } else if chars_eq(id.as_slice(), chars_of("fedora").as_slice()) {
                        clone_opt(&cfg.fedora)
                    } else {
                        None
                    }
                },
                None => None,
            },
            None => None,
        },
        Os::Unknown => None,
    }
}

} // verus!
