//! The host platform: operating system, architecture and Linux distribution.

use vstd::prelude::*;
use crate::text::{
    ascii_lower_seq, chars_of, has_prefix, lines, lines_of, slice_chars, starts_with, str_eq, string_of,
    to_ascii_lowercase, trim_char, trim_matches_char, views,
};

verus! {

/// The operating system family.
#[derive(Clone, Copy, Debug, PartialEq, Eq, Structural)]
pub enum Platform {
    Mac,
    Linux,
}

/// The processor architecture.
#[derive(Clone, Copy, Debug, PartialEq, Eq, Structural)]
pub enum Arch {
    Arm64,
    X86_64,
}

/// A host: platform, architecture and, on Linux, the distribution.
#[derive(Debug)]
pub struct Host {
    pub platform: Platform,
    pub arch: Arch,
    pub distro: Option<String>,
}

impl Platform {
    /// The platform's key in the tool database.
    pub fn key(self) -> (r: &'static str)
        ensures
            r@ == (match self {
                Platform::Mac => "mac"@,
                Platform::Linux => "linux"@,
            }),
    {
        match self {
            Platform::Mac => "mac",
            Platform::Linux => "linux",
        }
    }
}

impl Arch {
    /// The architecture's key in the tool database.
    pub fn key(self) -> (r: &'static str)
        ensures
            r@ == (match self {
                Arch::Arm64 => "arm64"@,
                Arch::X86_64 => "x86_64"@,
            }),
    {
        match self {
            Arch::Arm64 => "arm64",
            Arch::X86_64 => "x86_64",
        }
    }
}

/// The distributions supported on Linux (macOS is always supported).
pub open spec fn supported(platform: Platform, distro: Option<Seq<char>>) -> bool {
    match platform {
        Platform::Mac => true,
        Platform::Linux => distro == Some("ubuntu"@) || distro == Some("debian"@),
    }
}

/// Whether the host is supported: macOS, or Ubuntu or Debian Linux.
pub fn distro_supported(host: &Host) -> (r: bool)
    ensures
        r == supported(host.platform, crate::text::opt_string_view(host.distro)),
{
    match host.platform {
        Platform::Mac => true,
        Platform::Linux => match &host.distro {
            Some(d) => str_eq(d.as_str(), "ubuntu") || str_eq(d.as_str(), "debian"),
            None => false,
        },
    }
}

/// The host for the compiled-in operating system and architecture names
/// (`macos`/`linux`, `aarch64`/`x86_64`) and, on Linux, the distribution
/// read from the system (`unknown` when it could not be read).
pub fn host_from(os: &str, arch: &str, distro: Option<String>) -> (r: Result<Host, String>)
    ensures
        match r {
            Ok(h) => (os@ == "macos"@ || os@ == "linux"@) && (arch@ == "aarch64"@ || arch@ == "x86_64"@)
                && h.platform == (if os@ == "macos"@ { Platform::Mac } else { Platform::Linux })
                && h.arch == (if arch@ == "aarch64"@ { Arch::Arm64 } else { Arch::X86_64 })
                && crate::text::opt_string_view(h.distro) == (if os@ == "macos"@ {
                None
            } else {
                Some(match distro {
                    Some(d) => d@,
                    None => "unknown"@,
                })
            }),
            Err(e) => if !(os@ == "macos"@ || os@ == "linux"@) {
                e@ == "unsupported operating system: "@ + os@
            } else {
                !(arch@ == "aarch64"@ || arch@ == "x86_64"@) && e@ == "unsupported architecture: "@ + arch@
            },
        },
{
    let platform = if str_eq(os, "macos") {
        Platform::Mac
    } else if str_eq(os, "linux") {
        Platform::Linux
    } else {
        let mut e = String::from_str("unsupported operating system: ");
        e.append(os);
        return Err(e);
    };
    let a = if str_eq(arch, "aarch64") {
        Arch::Arm64
    } else if str_eq(arch, "x86_64") {
        Arch::X86_64
    } else {
        let mut e = String::from_str("unsupported architecture: ");
        e.append(arch);
        return Err(e);
    };
    let d = match platform {
        Platform::Linux => Some(match distro {
            Some(d) => d,
            None => String::from_str("unknown"),
        }),
        Platform::Mac => None,
    };
    Ok(Host { platform, arch: a, distro: d })
}

/// The distribution an `os-release` text names: the value of its first
/// `ID=` line, quotes stripped, in ASCII lowercase.
pub open spec fn distro_of(ls: Seq<Seq<char>>) -> Option<Seq<char>>
    decreases ls.len(),
{
    if ls.len() == 0 {
        None
    } else if has_prefix(ls[0], "ID="@) {
        Some(ascii_lower_seq(trim_char(ls[0].skip(3), '"')))
    } else {
        distro_of(ls.drop_first())
    }
}

/// The distribution an `os-release` text names, if any.
pub fn distro_from_os_release(contents: &str) -> (r: Option<String>)
    ensures
        crate::text::opt_string_view(r) == distro_of(lines_of(contents@)),
{
    let ls = lines(chars_of(contents).as_slice());
    let ghost lv = views(ls@);
    let p = chars_of("ID=");
    proof {
        reveal_strlit("ID=");
    }
    let mut i: usize = 0;
    assert(lv.skip(0) =~= lv);
    while i < ls.len()
        invariant
            i <= ls@.len(),
            lv == views(ls@),
            lv == lines_of(contents@),
            p@ == "ID="@,
            "ID="@.len() == 3,
            distro_of(lv) == distro_of(lv.skip(i as int)),
        decreases ls@.len() - i,
    {
        proof {
            assert(lv.skip(i as int)[0] == ls@[i as int]@);
            assert(lv.skip(i as int).drop_first() =~= lv.skip(i + 1));
        }
        if starts_with(ls[i].as_slice(), p.as_slice()) {
            let v = slice_chars(ls[i].as_slice(), 3, ls[i].len());
            proof {
                assert(v@ =~= ls@[i as int]@.skip(3));
            }
            let t = trim_matches_char(v.as_slice(), '"');
            let l = to_ascii_lowercase(t.as_slice());
            return Some(string_of(l.as_slice()));
        }
        i += 1;
    }
    None
}

} // verus!
