use dotman::bootstrap::{git_help, git_installers};

#[test]
fn linux_git_installers_in_order() {
    let names: Vec<&str> = git_installers().iter().map(|(p, _)| *p).collect();
    assert_eq!(names, vec!["apt-get", "dnf", "pacman"]);
    assert_eq!(git_installers()[0].1, "sudo apt-get update -qq && sudo apt-get install -y -qq git");
}

#[test]
fn git_help_is_per_platform() {
    assert_eq!(git_help("macos").len(), 2);
    assert_eq!(git_help("linux")[2], "  Arch:          sudo pacman -Sy git");
    assert_eq!(git_help("freebsd"), vec!["  Install git using your system package manager."]);
}
