use dotman::width::{capitalize, fit, text_width};

#[test]
fn fit_pads_short_text() {
    assert_eq!(fit("abc", 6), "abc   ");
    assert_eq!(text_width("abc"), 3);
}

#[test]
fn fit_cuts_long_text_with_an_ellipsis() {
    assert_eq!(fit("abcdefghij", 7), "abcd...");
    assert_eq!(fit("abcdefghij", 3), "...");
    assert_eq!(fit("abcdefghij", 2), "..");
}

#[test]
fn fit_counts_wide_characters_by_columns() {
    assert_eq!(text_width("日本"), 4);
    assert_eq!(fit("日本語テキスト", 8), "日本...");
}

#[test]
fn capitalize_upcases_the_first_ascii_letter() {
    assert_eq!(capitalize("running"), "Running");
    assert_eq!(capitalize(""), "");
    assert_eq!(capitalize("ñu"), "ñu");
}
