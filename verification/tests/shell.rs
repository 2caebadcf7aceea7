use dotman::shell::confirmed;

#[test]
fn confirmed_accepts_yes_forms() {
    assert!(confirmed("y\n"));
    assert!(confirmed("yes"));
    assert!(confirmed("YES"));
}

#[test]
fn confirmed_rejects_default_and_other_text() {
    assert!(!confirmed(""));
    assert!(!confirmed("n"));
    assert!(!confirmed("sure"));
}
