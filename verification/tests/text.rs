use gt::text::{is_blank, join_strings};

#[test]
fn join_puts_the_separator_between() {
    let v = |xs: &[&str]| xs.iter().map(|s| s.to_string()).collect::<Vec<String>>();
    assert_eq!(join_strings(&v(&[]), ", "), "");
    assert_eq!(join_strings(&v(&["a"]), ", "), "a");
    assert_eq!(join_strings(&v(&["a", "b", "c"]), ", "), "a, b, c");
}

#[test]
fn blank_is_whitespace_only() {
    assert!(is_blank(""));
    assert!(is_blank(" \t\n\u{3000}"));
    assert!(!is_blank(" x "));
}
