//! Getting git onto a machine that lacks it: the package managers tried on
//! Linux, in order, and the manual instructions shown when none works.

use vstd::prelude::*;

verus! {

/// The Linux package managers tried for git, in order: the program that
/// must be on the path, and the command that installs git with it.
pub open spec fn git_installers_spec() -> Seq<(Seq<char>, Seq<char>)> {
    seq![
        ("apt-get"@, "sudo apt-get update -qq && sudo apt-get install -y -qq git"@),
        ("dnf"@, "sudo dnf install -y git"@),
        ("pacman"@, "sudo pacman -Sy --needed --noconfirm git"@),
    ]
}

/// The Linux package managers tried for git, in order.
pub fn git_installers() -> (r: Vec<(&'static str, &'static str)>)
    ensures
        r@.len() == git_installers_spec().len(),
        forall|i: int| 0 <= i < r@.len() ==> (#[trigger] r@[i]).0@ == git_installers_spec()[i].0 && r@[i].1@ == git_installers_spec()[i].1,
{
    let mut r: Vec<(&'static str, &'static str)> = Vec::new();
    r.push(("apt-get", "sudo apt-get update -qq && sudo apt-get install -y -qq git"));
    r.push(("dnf", "sudo dnf install -y git"));
    r.push(("pacman", "sudo pacman -Sy --needed --noconfirm git"));
    r
}

/// How to install git by hand on an operating system (`macos`, `linux`, or
/// another), one line each.
pub open spec fn git_help_spec(os: Seq<char>) -> Seq<Seq<char>> {
    if os == "macos"@ {
        seq![
            "  Run: xcode-select --install"@,
            "  Or install Homebrew from https://brew.sh then: brew install git"@,
        ]
    } else if os == "linux"@ {
        seq![
            "  Debian/Ubuntu: sudo apt-get install -y git"@,
            "  Fedora:        sudo dnf install -y git"@,
            "  Arch:          sudo pacman -Sy git"@,
        ]
    } else {
        seq!["  Install git using your system package manager."@]
    }
}

/// How to install git by hand on `os`.
pub fn git_help(os: &str) -> (r: Vec<&'static str>)
    ensures
        r@.len() == git_help_spec(os@).len(),
        forall|i: int| 0 <= i < r@.len() ==> (#[trigger] r@[i])@ == git_help_spec(os@)[i],
{
    let mut r: Vec<&'static str> = Vec::new();
    if crate::text::str_eq(os, "macos") {
        r.push("  Run: xcode-select --install");
        r.push("  Or install Homebrew from https://brew.sh then: brew install git");
    } else if crate::text::str_eq(os, "linux") {
        r.push("  Debian/Ubuntu: sudo apt-get install -y git");
        r.push("  Fedora:        sudo dnf install -y git");
        r.push("  Arch:          sudo pacman -Sy git");
    } else {
        r.push("  Install git using your system package manager.");
    }
    r
}

} // verus!
