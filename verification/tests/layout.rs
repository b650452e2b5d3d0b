use reukocyte::layout::check;
use reukocyte::layout::rules::trailing_whitespace::{check_source, find_trailing_whitespace};

#[test]
fn test_check_no_violations() {
    let diagnostics = check(b"def foo\n  bar\nend\n");
    assert!(diagnostics.is_empty());
}

#[test]
fn test_check_with_violations() {
    let diagnostics = check(b"def foo  \n  bar\nend\n");
    assert_eq!(diagnostics.len(), 1);
    assert_eq!(diagnostics[0].rule, "Layout/TrailingWhitespace");
}

#[test]
fn test_no_trailing_whitespace() {
    let diagnostics = check_source(b"def foo\n  bar\nend\n");
    assert!(diagnostics.is_empty());
}

#[test]
fn test_trailing_spaces() {
    let diagnostics = check_source(b"def foo  \n  bar\nend\n");
    assert_eq!(diagnostics.len(), 1);
    assert_eq!(diagnostics[0].line, 1);
    assert_eq!(diagnostics[0].column, 8);
}

#[test]
fn test_trailing_tab() {
    let diagnostics = check_source(b"def foo\t\n  bar\nend\n");
    assert_eq!(diagnostics.len(), 1);
    assert_eq!(diagnostics[0].line, 1);
}

#[test]
fn test_multiple_lines_with_trailing() {
    let diagnostics = check_source(b"def foo  \n  bar  \nend\n");
    assert_eq!(diagnostics.len(), 2);
    assert_eq!(diagnostics[0].line, 1);
    assert_eq!(diagnostics[1].line, 2);
}

#[test]
fn trailing_whitespace_test_empty_file() {
    let diagnostics = check_source(b"");
    assert!(diagnostics.is_empty());
}

#[test]
fn trailing_whitespace_test_whitespace_only_line() {
    let diagnostics = check_source(b"def foo\n   \nend\n");
    assert_eq!(diagnostics.len(), 1);
    assert_eq!(diagnostics[0].line, 2);
}

#[test]
fn carriage_return_counts_as_trailing() {
    let diagnostics = check_source(b"a \r\nb");
    assert_eq!(diagnostics.len(), 1);
    assert_eq!((diagnostics[0].start, diagnostics[0].end, diagnostics[0].column), (1, 3, 2));
    assert_eq!(diagnostics[0].message, "Trailing whitespace detected.");
    assert_eq!(find_trailing_whitespace(b"x \t"), Some(1));
    assert_eq!(find_trailing_whitespace(b"x"), None);
    assert_eq!(find_trailing_whitespace(b""), None);
}
