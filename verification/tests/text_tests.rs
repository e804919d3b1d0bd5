use amazing_clu::text::{decimal_string, join_lines, starts_with_char, trim_newlines};

#[test]
fn decimal_string_renders_numbers() {
    assert_eq!("0", decimal_string(0));
    assert_eq!("7", decimal_string(7));
    assert_eq!("10", decimal_string(10));
    assert_eq!("1234567890", decimal_string(1234567890));
    assert_eq!(u128::MAX.to_string(), decimal_string(u128::MAX));
}

#[test]
fn join_lines_puts_line_feeds_between() {
    assert_eq!("", join_lines(&vec![]));
    assert_eq!("a", join_lines(&vec!["a".to_string()]));
    assert_eq!("a\n\nb", join_lines(&vec!["a".to_string(), "".to_string(), "b".to_string()]));
}

#[test]
fn trim_newlines_cuts_both_ends_only() {
    assert_eq!("", trim_newlines(""));
    assert_eq!("", trim_newlines("\n\n"));
    assert_eq!("a\n\nb", trim_newlines("\n\na\n\nb\n"));
    assert_eq!(" ", trim_newlines("\n \n"));
    assert_eq!("\r", trim_newlines("\r\n"));
    assert_eq!("h\u{e9}", trim_newlines("\nh\u{e9}\n"));
}

#[test]
fn starts_with_char_looks_at_the_first() {
    assert!(starts_with_char("*.txt", '*'));
    assert!(!starts_with_char("a*", '*'));
    assert!(!starts_with_char("", '*'));
}
