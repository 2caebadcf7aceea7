use dotman::icons::{current, icon_set, mode, nerd, parse_mode, plain, spinner_braille, spinner_circle, IconMode, IconSet};

fn all_non_empty(set: &IconSet) {
    assert!(!set.expanded.is_empty());
    assert!(!set.collapsed.is_empty());
    assert!(!set.selected.is_empty());
    assert!(!set.unselected.is_empty());
    assert!(!set.success.is_empty());
    assert!(!set.failed.is_empty());
    assert!(!set.skipped.is_empty());
    assert!(!set.running.is_empty());
    assert!(!set.warning.is_empty());
    assert!(!set.pending.is_empty());
    assert!(!set.retry.is_empty());
    assert!(!set.app.is_empty());
    assert!(!set.info.is_empty());
    assert!(!set.host.is_empty());
    assert!(!set.menu_deploy.is_empty());
    assert!(!set.menu_plan.is_empty());
    assert!(!set.menu_history.is_empty());
    assert!(!set.menu_quit.is_empty());
}

#[test]
fn icon_sets_are_non_empty() {
    for set in [&nerd(), &plain()] {
        all_non_empty(set);
    }
}

#[test]
fn parses_icon_modes() {
    assert_eq!(parse_mode("nerd"), Some(IconMode::Nerd));
    assert_eq!(parse_mode("nerd-font"), Some(IconMode::Nerd));
    assert_eq!(parse_mode("plain"), Some(IconMode::Plain));
    assert_eq!(parse_mode("unicode"), Some(IconMode::Plain));
    assert_eq!(parse_mode("unknown"), None);
}

#[test]
fn spinners_have_expected_length() {
    assert_eq!(spinner_braille().len(), 10);
    assert_eq!(spinner_circle().len(), 4);
}

#[test]
fn icon_mode_prefers_the_override_then_the_shell() {
    assert_eq!(mode(Some(" NERD "), None), IconMode::Nerd);
    assert_eq!(mode(Some("plain"), Some("fish")), IconMode::Plain);
    assert_eq!(mode(Some("bogus"), Some("FISH")), IconMode::Nerd);
    assert_eq!(mode(None, Some("bash")), IconMode::Plain);
    assert_eq!(current(None, None).success, "✓");
    assert_eq!(icon_set(IconMode::Plain).failed, "✗");
}

#[test]
fn spinner_frames_are_in_order() {
    assert_eq!(spinner_braille(), ["⠋", "⠙", "⠹", "⠸", "⠼", "⠴", "⠦", "⠧", "⠇", "⠏"]);
    assert_eq!(spinner_circle(), ["◐", "◓", "◑", "◒"]);
}
