use reukocyte::locator::LineIndex;

#[test]
fn test_empty_source() {
    let index = LineIndex::from_source(b"");
    assert_eq!(index.line_count(), 1);
    assert_eq!(index.line_column(0), (1, 1));
}

#[test]
fn test_single_line() {
    let source = b"hello world";
    let index = LineIndex::from_source(source);
    assert_eq!(index.line_count(), 1);
    assert_eq!(index.line_column(0), (1, 1));
    assert_eq!(index.line_column(5), (1, 6));
    assert_eq!(index.line_column(10), (1, 11));
}

#[test]
fn test_multiple_lines() {
    let source = b"line1\nline2\nline3";
    let index = LineIndex::from_source(source);
    assert_eq!(index.line_count(), 3);
    assert_eq!(index.line_column(0), (1, 1));
    assert_eq!(index.line_column(4), (1, 5));
    assert_eq!(index.line_column(6), (2, 1));
    assert_eq!(index.line_column(10), (2, 5));
    assert_eq!(index.line_column(12), (3, 1));
    assert_eq!(index.line_column(16), (3, 5));
}

#[test]
fn test_trailing_newline() {
    let source = b"line1\nline2\n";
    let index = LineIndex::from_source(source);
    assert_eq!(index.line_count(), 3);
    assert_eq!(index.line_column(12), (3, 1));
}

#[test]
fn test_at_newline() {
    let source = b"ab\ncd";
    let index = LineIndex::from_source(source);
    assert_eq!(index.line_column(2), (1, 3));
    assert_eq!(index.line_column(3), (2, 1));
}

#[test]
fn test_line_number_only() {
    let source = b"first\nsecond\nthird";
    let index = LineIndex::from_source(source);
    assert_eq!(index.line_number(0), 1);
    assert_eq!(index.line_number(5), 1);
    assert_eq!(index.line_number(6), 2);
    assert_eq!(index.line_number(13), 3);
}

#[test]
fn test_column_number_only() {
    let source = b"abc\ndefgh";
    let index = LineIndex::from_source(source);
    assert_eq!(index.column_number(0), 1);
    assert_eq!(index.column_number(2), 3);
    assert_eq!(index.column_number(4), 1);
    assert_eq!(index.column_number(8), 5);
}

#[test]
fn test_indentation_spaces() {
    let source = b"    def foo";
    let index = LineIndex::from_source(source);
    assert_eq!(index.indentation(0), 4);
    assert_eq!(index.indentation(4), 4);
}

#[test]
fn test_indentation_tab() {
    let source = b"\tdef foo";
    let index = LineIndex::from_source(source);
    assert_eq!(index.indentation(0), 1);
}

#[test]
fn test_indentation_mixed() {
    let source = b"  \t  def";
    let index = LineIndex::from_source(source);
    assert_eq!(index.indentation(0), 5);
}

#[test]
fn test_indentation_no_indent() {
    let source = b"def foo";
    let index = LineIndex::from_source(source);
    assert_eq!(index.indentation(0), 0);
}

#[test]
fn test_indentation_multiline() {
    let source = b"class Foo\n  def bar\n    x\n  end\nend";
    let index = LineIndex::from_source(source);
    assert_eq!(index.indentation(0), 0);
    assert_eq!(index.indentation(10), 2);
    assert_eq!(index.indentation(20), 4);
    assert_eq!(index.indentation(26), 2);
    assert_eq!(index.indentation(32), 0);
}

#[test]
fn test_column_0indexed() {
    let source = b"  def foo";
    let index = LineIndex::from_source(source);
    assert_eq!(index.column(0), 0);
    assert_eq!(index.column(2), 2);
    assert_eq!(index.column(5), 5);
}

#[test]
fn test_column_multiline() {
    let source = b"abc\n  def";
    let index = LineIndex::from_source(source);
    assert_eq!(index.column(0), 0);
    assert_eq!(index.column(2), 2);
    assert_eq!(index.column(4), 0);
    assert_eq!(index.column(6), 2);
}

#[test]
fn test_batch_line_info_matches_individual() {
    let mut src = Vec::new();
    for i in 0..1000 {
        if i % 3 == 0 {
            src.extend_from_slice(b"  line\n");
        } else if i % 3 == 1 {
            src.extend_from_slice(b"\tline\n");
        } else {
            src.extend_from_slice(b"line\n");
        }
    }
    let index = LineIndex::from_source(&src);
    let mut offsets = Vec::new();
    for line in (0..1000).step_by(7) {
        let start = index.line_start(line).unwrap();
        let end = start + 2;
        offsets.push((start, end));
    }
    let batch = index.batch_line_info(&offsets);
    for (i, &(start, end)) in offsets.iter().enumerate() {
        let (ls, cs) = index.line_column(start);
        let (le, ce) = index.line_column(end);
        let indent = index.indentation(start);
        let (bls, ble, bcs, bce, bind) = batch[i];
        assert_eq!(ls, bls);
        assert_eq!(le, ble);
        assert_eq!(cs, bcs);
        assert_eq!(ce, bce);
        assert_eq!(indent, bind);
    }
}

#[test]
fn lines_rejoin_to_source() {
    let source = b"a\n\n  bc\nd";
    let index = LineIndex::from_source(source);
    let texts: Vec<&[u8]> = index.lines().iter().map(|l| l.text).collect();
    assert_eq!(texts.join(&b'\n'), source.to_vec());
    assert!(index.are_on_same_line(3, 6));
    assert!(!index.are_on_same_line(1, 2));
    assert_eq!(index.column_offset_between(4, 6), 2);
    assert_eq!(index.column_offset_between(6, 0), -3);
    assert!(index.is_first_on_line(5));
    assert!(!index.is_first_on_line(6));
    assert_eq!(index.line_range(3), (3, Some(8)));
    assert_eq!(index.line_range(8), (8, None));
    assert_eq!(index.line_end_offset(3), 7);
    assert_eq!(index.line_at(4), b"  bc");
    assert_eq!(index.line(1), Some(&b""[..]));
    assert_eq!(index.line(4), None);
}
