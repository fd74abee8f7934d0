use fmt2::utils::{count_newlines, first_line, first_line_no_debug_assertion, has_newlines};

#[test]
fn test_first_line() {
    assert_eq!(first_line_no_debug_assertion("123"), "123");
    assert_eq!(first_line_no_debug_assertion("123\nabc"), "123");
    assert_eq!(first_line_no_debug_assertion("123\n"), "123");
    assert_eq!(first_line_no_debug_assertion("123\nabc\n456"), "123");
    assert_eq!(first_line_no_debug_assertion("123\nabc\n"), "123");
    assert_eq!(first_line_no_debug_assertion("\nabc"), "");
    assert_eq!(first_line_no_debug_assertion("\n"), "");
    assert_eq!(first_line_no_debug_assertion(""), "");
}

#[test]
fn first_line_agrees_and_holds_no_line_terminator() {
    for s in ["", "a", "a\nb", "\n\n", "héllo\nwörld", "↑↓\n"] {
        let line = first_line(s);
        assert_eq!(line, first_line_no_debug_assertion(s));
        assert!(!has_newlines(line));
        assert_eq!(count_newlines(line), 0);
        assert!(s.starts_with(line));
    }
    assert_eq!(first_line("héllo\nwörld"), "héllo");
}

#[test]
fn newlines_are_counted() {
    assert_eq!(count_newlines(""), 0);
    assert_eq!(count_newlines("abc"), 0);
    assert_eq!(count_newlines("\n"), 1);
    assert_eq!(count_newlines("a\nb\nc\n"), 3);
    assert_eq!(count_newlines("é\n↑\n"), 2);
    assert!(!has_newlines(""));
    assert!(!has_newlines("abc\r"));
    assert!(has_newlines("abc\n"));
    assert!(has_newlines("\nabc"));
}
