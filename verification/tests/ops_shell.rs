use dotman::ops::clean::{plan_clean, CleanAction};
use dotman::ops::shell::command_contains_sudo;

#[test]
fn command_contains_sudo_detects_sudo() {
    assert!(command_contains_sudo("sudo apt install -y fish"));
    assert!(command_contains_sudo("sudo dnf install -y git"));
    assert!(command_contains_sudo("sudo pacman -S neovim"));
}

#[test]
fn command_contains_sudo_rejects_non_sudo() {
    assert!(!command_contains_sudo("brew install fish"));
    assert!(!command_contains_sudo("echo hello"));
    assert!(!command_contains_sudo("make install"));
}

#[test]
fn command_contains_sudo_exact_word_match() {
    assert!(!command_contains_sudo("pseudocode_here"));
    assert!(command_contains_sudo("echo sudo echo"));
}

#[test]
fn skip_when_target_missing() {
    assert!(matches!(plan_clean(false, false, true, "/t.bak".into()), CleanAction::Skip));
}

#[test]
fn clean_removes_symlinks_and_backs_up_files_only_when_forced() {
    assert!(matches!(plan_clean(true, true, false, "/t.bak".into()), CleanAction::RemoveSymlink));
    assert!(matches!(plan_clean(true, false, false, "/t.bak".into()), CleanAction::Skip));
    match plan_clean(true, false, true, "/t.bak".into()) {
        CleanAction::BackupAndRemove(b) => assert_eq!(b, "/t.bak"),
        other => panic!("unexpected {other:?}"),
    }
}
