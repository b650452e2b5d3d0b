use reukocyte::utils::is_blank;

#[test]
fn test_is_blank_space() {
    assert!(is_blank(' '));
}

#[test]
fn test_is_blank_tab() {
    assert!(is_blank('\t'));
}

#[test]
fn test_is_blank_fullwidth_space() {
    assert!(is_blank('\u{3000}'));
}

#[test]
fn test_is_blank_cr_not_blank() {
    assert!(!is_blank('\r'));
}

#[test]
fn test_is_blank_newline_not_blank() {
    assert!(!is_blank('\n'));
}

#[test]
fn test_is_blank_regular_char_not_blank() {
    assert!(!is_blank('a'));
    assert!(!is_blank('0'));
}
