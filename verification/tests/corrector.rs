use reukocyte::corrector::{ranges_overlap, should_apply_fix, ClobberingError, Corrector};
use reukocyte::diagnostic::{Applicability, Edit, Fix};

fn make_edit(start: usize, end: usize, content: &str) -> Edit {
    Edit { start, end, content: content.to_string() }
}

fn make_fix(edits: Vec<Edit>) -> Fix {
    Fix { applicability: Applicability::Safe, edits }
}

#[test]
fn test_merge_no_conflict() {
    let mut corrector = Corrector::new();
    let fix1 = make_fix(vec![make_edit(0, 5, "hello")]);
    let fix2 = make_fix(vec![make_edit(10, 15, "world")]);
    assert!(corrector.merge(&fix1).is_ok());
    assert!(corrector.merge(&fix2).is_ok());
    assert_eq!(corrector.edit_count(), 2);
}

#[test]
fn corrector_applies_a_repeated_edit_once() {
    let mut corrector = Corrector::new();
    assert!(corrector.merge(&make_fix(vec![make_edit(0, 5, "hello")])).is_ok());
    assert!(corrector.merge(&make_fix(vec![make_edit(0, 5, "hello")])).is_ok());
    assert_eq!(corrector.apply(b"abcdefg"), b"hellofg".to_vec());
    let mut insertions = Corrector::new();
    assert!(insertions.merge(&make_fix(vec![make_edit(2, 2, "X")])).is_ok());
    assert!(insertions.merge(&make_fix(vec![make_edit(2, 2, "X")])).is_ok());
    assert_eq!(insertions.apply(b"abcd"), b"abXcd".to_vec());
}

#[test]
fn test_merge_different_replacements() {
    let mut corrector = Corrector::new();
    let fix1 = make_fix(vec![make_edit(0, 5, "hello")]);
    let fix2 = make_fix(vec![make_edit(0, 5, "world")]);
    assert!(corrector.merge(&fix1).is_ok());
    let result = corrector.merge(&fix2);
    assert!(matches!(result, Err(ClobberingError::DifferentReplacements { .. })));
    assert_eq!(corrector.edit_count(), 1);
}

#[test]
fn test_merge_same_replacement() {
    let mut corrector = Corrector::new();
    let fix1 = make_fix(vec![make_edit(0, 5, "hello")]);
    let fix2 = make_fix(vec![make_edit(0, 5, "hello")]);
    assert!(corrector.merge(&fix1).is_ok());
    assert!(corrector.merge(&fix2).is_ok());
    assert_eq!(corrector.edit_count(), 2);
}

#[test]
fn test_merge_overlapping() {
    let mut corrector = Corrector::new();
    let fix1 = make_fix(vec![make_edit(0, 10, "hello")]);
    let fix2 = make_fix(vec![make_edit(5, 15, "world")]);
    assert!(corrector.merge(&fix1).is_ok());
    let result = corrector.merge(&fix2);
    assert!(matches!(result, Err(ClobberingError::Overlapping { .. })));
    assert_eq!(corrector.edit_count(), 1);
}

#[test]
fn test_merge_swallowed_insertion() {
    let mut corrector = Corrector::new();
    let fix1 = make_fix(vec![make_edit(0, 10, "")]);
    let fix2 = make_fix(vec![make_edit(5, 5, "inserted")]);
    assert!(corrector.merge(&fix1).is_ok());
    let result = corrector.merge(&fix2);
    assert!(matches!(result, Err(ClobberingError::SwallowedInsertion { .. })));
}

#[test]
fn test_apply_simple() {
    let mut corrector = Corrector::new();
    let source = b"hello world";
    let fix = make_fix(vec![make_edit(6, 11, "rust")]);
    corrector.merge(&fix).unwrap();
    let result = corrector.apply(source);
    assert_eq!(result, b"hello rust");
}

#[test]
fn test_apply_multiple_edits() {
    let mut corrector = Corrector::new();
    let source = b"aaa bbb ccc";
    let fix1 = make_fix(vec![make_edit(0, 3, "AAA")]);
    let fix2 = make_fix(vec![make_edit(8, 11, "CCC")]);
    corrector.merge(&fix1).unwrap();
    corrector.merge(&fix2).unwrap();
    let result = corrector.apply(source);
    assert_eq!(result, b"AAA bbb CCC");
}

#[test]
fn test_apply_deletion() {
    let mut corrector = Corrector::new();
    let source = b"hello   world";
    let fix = make_fix(vec![make_edit(5, 8, " ")]);
    corrector.merge(&fix).unwrap();
    let result = corrector.apply(source);
    assert_eq!(result, b"hello world");
}

#[test]
fn test_apply_insertion() {
    let mut corrector = Corrector::new();
    let source = b"helloworld";
    let fix = make_fix(vec![make_edit(5, 5, " ")]);
    corrector.merge(&fix).unwrap();
    let result = corrector.apply(source);
    assert_eq!(result, b"hello world");
}

#[test]
fn test_apply_empty() {
    let corrector = Corrector::new();
    let source = b"hello world";
    let result = corrector.apply(source);
    assert_eq!(result, source);
}

#[test]
fn test_ranges_overlap() {
    assert!(!ranges_overlap(0, 5, 5, 10));
    assert!(!ranges_overlap(5, 10, 0, 5));
    assert!(ranges_overlap(0, 10, 5, 15));
    assert!(ranges_overlap(5, 15, 0, 10));
    assert!(ranges_overlap(0, 20, 5, 15));
    assert!(ranges_overlap(5, 15, 0, 20));
    assert!(!ranges_overlap(0, 5, 5, 10));
}

#[test]
fn test_should_apply_fix() {
    let safe_fix = Fix::safe(vec![]);
    let unsafe_fix = Fix::unsafe_fix(vec![]);
    let display_fix = Fix::display_only(vec![]);
    assert!(should_apply_fix(&safe_fix, false));
    assert!(!should_apply_fix(&unsafe_fix, false));
    assert!(!should_apply_fix(&display_fix, false));
    assert!(should_apply_fix(&safe_fix, true));
    assert!(should_apply_fix(&unsafe_fix, true));
    assert!(!should_apply_fix(&display_fix, true));
}

#[test]
fn merge_keeps_edits_ordered_by_position() {
    // Edits merged out of order are applied in source order.
    let mut corrector = Corrector::new();
    corrector.merge(&make_fix(vec![make_edit(8, 11, "CCC")])).unwrap();
    corrector.merge(&make_fix(vec![make_edit(0, 3, "AAA")])).unwrap();
    corrector.merge(&make_fix(vec![make_edit(4, 7, "BBB")])).unwrap();
    assert_eq!(corrector.apply(b"aaa bbb ccc"), b"AAA BBB CCC");
}

#[test]
fn merge_refused_leaves_corrector_unchanged() {
    let mut corrector = Corrector::new();
    corrector.merge(&make_fix(vec![make_edit(0, 10, "x")])).unwrap();
    let before = corrector.apply(b"0123456789abc");
    // The second edit of this fix overlaps: the whole fix is refused.
    let r = corrector.merge(&make_fix(vec![make_edit(11, 12, "y"), make_edit(3, 4, "z")]));
    assert!(matches!(r, Err(ClobberingError::Overlapping { existing: (0, 10), new: (3, 4) })));
    assert_eq!(corrector.edit_count(), 1);
    assert_eq!(corrector.apply(b"0123456789abc"), before);
}

#[test]
fn swallowed_insertion_reports_both_ranges() {
    let mut corrector = Corrector::new();
    corrector.merge(&make_fix(vec![make_edit(4, 4, "ins")])).unwrap();
    let r = corrector.merge(&make_fix(vec![make_edit(2, 6, "")]));
    assert!(matches!(
        r,
        Err(ClobberingError::SwallowedInsertion { insertion_pos: 4, deletion_range: (2, 6) })
    ));
    assert!(!corrector.is_empty());
}

#[test]
fn insertion_and_deletion_at_same_point() {
    let mut corrector = Corrector::new();
    corrector.merge(&make_fix(vec![make_edit(3, 3, "X")])).unwrap();
    corrector.merge(&make_fix(vec![make_edit(3, 5, "")])).unwrap();
    assert_eq!(corrector.apply(b"abcdefg"), b"abcXfg");
}
