use reukocyte::rule::{LayoutRule, LintRule, RuleId};
use reukocyte::syntax::{NodeKind, SyntaxNode};
use reukocyte::diagnostic::{Edit, Fix, Severity};
use reukocyte::{check, Applicability, Diagnostic};

// A syntax tree for the small Ruby sources of these tests, laid out as the parser lays it
// out: the nodes in the order a depth-first walk enters them.

fn node(kind: NodeKind, start: usize, end: usize, parent: Option<usize>) -> SyntaxNode {
    SyntaxNode {
        kind,
        start,
        end,
        parent,
        keyword: None,
        end_keyword: None,
        name: Vec::new(),
        receiver: None,
        arguments: None,
        value: None,
        children: Vec::new(),
    }
}

fn add(t: &mut Vec<SyntaxNode>, n: SyntaxNode) -> usize {
    t.push(n);
    t.len() - 1
}

fn lines_of(src: &[u8]) -> Vec<(usize, usize)> {
    let mut out = Vec::new();
    let mut start = 0;
    for (i, &b) in src.iter().enumerate() {
        if b == b'\n' {
            out.push((start, i));
            start = i + 1;
        }
    }
    out.push((start, src.len()));
    out
}

fn word_at(src: &[u8], at: usize, end: usize) -> usize {
    let mut e = at;
    while e < end && (src[e].is_ascii_alphanumeric() || src[e] == b'_') {
        e += 1;
    }
    e
}

// One call statement on a line: `name`, `recv.name`, `name arg` or `Recv.name { inner }`.
fn call_statement(t: &mut Vec<SyntaxNode>, src: &[u8], stmts: usize, s: usize, e: usize) {
    let w = word_at(src, s, e);
    if w < e && src[w] == b'.' {
        let m = word_at(src, w + 1, e);
        let mut end = m;
        let has_block = m + 1 < e && src[m + 1] == b'{';
        if has_block {
            end = e;
        }
        let call = add(t, node(NodeKind::Call, s, end, Some(stmts)));
        t[call].name = src[w + 1..m].to_vec();
        t[stmts].children.push(call);
        let kind = if src[s].is_ascii_uppercase() { NodeKind::ConstantRead } else { NodeKind::Call };
        let recv = add(t, node(kind, s, w, Some(call)));
        t[recv].name = src[s..w].to_vec();
        t[call].receiver = Some(recv);
        if has_block {
            let block = add(t, node(NodeKind::Block, m + 1, e, Some(call)));
            let is = m + 3;
            let ie = word_at(src, is, e);
            let inner = add(t, node(NodeKind::Statements, is, ie, Some(block)));
            let c = add(t, node(NodeKind::Call, is, ie, Some(inner)));
            t[c].name = src[is..ie].to_vec();
            t[inner].children.push(c);
        }
    } else if w < e {
        let a = w + 1;
        let ae = word_at(src, a, e);
        let call = add(t, node(NodeKind::Call, s, ae, Some(stmts)));
        t[call].name = src[s..w].to_vec();
        t[stmts].children.push(call);
        let args = add(t, node(NodeKind::Arguments, a, ae, Some(call)));
        t[call].arguments = Some(args);
        let arg = add(t, node(NodeKind::Call, a, ae, Some(args)));
        t[arg].name = src[a..ae].to_vec();
        t[args].children.push(arg);
    } else {
        let call = add(t, node(NodeKind::Call, s, w, Some(stmts)));
        t[call].name = src[s..w].to_vec();
        t[stmts].children.push(call);
    }
}

// The statements of lines `from..to`, under the statements node `stmts`; returns the line
// after them.
fn statements(t: &mut Vec<SyntaxNode>, src: &[u8], lines: &[(usize, usize)], mut i: usize, stmts: usize) -> usize {
    while i < lines.len() {
        let (ls, le) = lines[i];
        let mut s = ls;
        while s < le && (src[s] == b' ' || src[s] == b'\t') {
            s += 1;
        }
        let mut e = le;
        while e > s && (src[e - 1] == b' ' || src[e - 1] == b'\t' || src[e - 1] == b'\r') {
            e -= 1;
        }
        if s == e || src[s] == b'#' {
            i += 1;
            continue;
        }
        let text = &src[s..e];
        if text == b"end" {
            return i;
        }
        if text.starts_with(b"def ") || text.starts_with(b"class ") {
            let is_def = text.starts_with(b"def ");
            let kind = if is_def { NodeKind::Def } else { NodeKind::Class };
            let kw = if is_def { 3 } else { 5 };
            let n = add(t, node(kind, s, 0, Some(stmts)));
            t[stmts].children.push(n);
            t[n].keyword = Some((s, s + kw));
            if !is_def {
                let cs = s + kw + 1;
                let c = add(t, node(NodeKind::ConstantRead, cs, e, Some(n)));
                t[c].name = src[cs..e].to_vec();
            }
            let body = add(t, node(NodeKind::Statements, 0, 0, Some(n)));
            let end_line = statements(t, src, lines, i + 1, body);
            let (els, ele) = lines[end_line];
            let mut es = els;
            while src[es] == b' ' || src[es] == b'\t' {
                es += 1;
            }
            let _ = ele;
            t[n].end = es + 3;
            t[n].end_keyword = Some((es, es + 3));
            if t[body].children.is_empty() {
                t.remove(body);
            } else {
                let first = t[body].children[0];
                let last = *t[body].children.last().unwrap();
                t[body].start = t[first].start;
                t[body].end = t[last].end;
            }
            i = end_line + 1;
            continue;
        }
        call_statement(t, src, stmts, s, e);
        i += 1;
    }
    i
}

fn tree(src: &[u8]) -> Vec<SyntaxNode> {
    let mut t = Vec::new();
    let lines = lines_of(src);
    let program = add(&mut t, node(NodeKind::Program, 0, 0, None));
    let stmts = add(&mut t, node(NodeKind::Statements, 0, 0, Some(program)));
    statements(&mut t, src, &lines, 0, stmts);
    if let (Some(&first), Some(&last)) = (t[stmts].children.first(), t[stmts].children.last()) {
        let (s, e) = (t[first].start, t[last].end);
        t[program].start = s;
        t[program].end = e;
        t[stmts].start = s;
        t[stmts].end = e;
    }
    t
}

fn run(src: &[u8]) -> Vec<Diagnostic> {
    check(src, &tree(src))
}

fn of_rule(ds: &[Diagnostic], rule: &str) -> Vec<Diagnostic> {
    ds.iter().filter(|d| d.rule() == rule).map(|d| d.duplicate()).collect()
}

fn of_id(ds: &[Diagnostic], id: RuleId) -> Vec<Diagnostic> {
    ds.iter().filter(|d| d.rule_id == id).map(|d| d.duplicate()).collect()
}

const STYLE: RuleId = RuleId::Layout(LayoutRule::IndentationStyle);

#[test]
fn test_no_tabs() {
    let diagnostics = run(b"def foo\n  bar\nend\n");
    assert!(diagnostics.is_empty(), "Expected no diagnostics for space indentation");
}

#[test]
fn test_single_tab_indent() {
    let diagnostics = run(b"def foo\n\tbar\nend\n");
    let style = of_id(&diagnostics, STYLE);
    assert_eq!(style.len(), 1);
    assert_eq!(style[0].message, "Tab detected in indentation.");
    assert_eq!(style[0].start, 8);
    assert_eq!(style[0].end, 9);
}

#[test]
fn test_multiple_tabs() {
    let diagnostics = run(b"def foo\n\t\tbar\nend\n");
    let style = of_id(&diagnostics, STYLE);
    assert_eq!(style.len(), 1);
    assert_eq!(style[0].start, 8);
    assert_eq!(style[0].end, 10);
}

#[test]
fn test_tab_with_fix() {
    let diagnostics = run(b"def foo\n\tbar\nend\n");
    let style = of_id(&diagnostics, STYLE);
    assert_eq!(style.len(), 1);
    let fix = style[0].fix.as_ref().unwrap();
    assert_eq!(fix.applicability, Applicability::Safe);
    assert_eq!(fix.edits.len(), 1);
    assert_eq!(fix.edits[0].content, "  ");
}

#[test]
fn test_two_tabs_with_fix() {
    let diagnostics = run(b"def foo\n\t\tbar\nend\n");
    let style = of_id(&diagnostics, STYLE);
    let fix = style[0].fix.as_ref().unwrap();
    assert_eq!(fix.edits[0].content, "    ");
}

#[test]
fn test_mixed_space_then_tab() {
    let diagnostics = run(b"def foo\n  \tbar\nend\n");
    let style = of_id(&diagnostics, STYLE);
    assert_eq!(style.len(), 1);
    assert_eq!(style[0].start, 10);
    assert_eq!(style[0].end, 11);
}

#[test]
fn test_tab_not_at_start_of_line() {
    let diagnostics = run(b"def foo\n  bar\tbaz\nend\n");
    assert!(of_id(&diagnostics, STYLE).is_empty(), "Tab after code should not be flagged");
}

#[test]
fn test_multiple_lines_with_tabs() {
    let diagnostics = run(b"def foo\n\tbar\n\tbaz\nend\n");
    assert_eq!(of_id(&diagnostics, STYLE).len(), 2);
}

#[test]
fn indentation_style_test_empty_file() {
    let diagnostics = run(b"");
    assert!(of_id(&diagnostics, STYLE).is_empty());
}

#[test]
fn test_no_consecutive_empty_lines() {
    let diagnostics = run(b"def foo\nend\n\ndef bar\nend\n");
    assert_eq!(of_rule(&diagnostics, "Layout/EmptyLines").len(), 0);
}

#[test]
fn test_two_consecutive_empty_lines() {
    let diagnostics = run(b"def foo\nend\n\n\ndef bar\nend\n");
    let empty = of_rule(&diagnostics, "Layout/EmptyLines");
    assert_eq!(empty.len(), 1);
    assert!(empty[0].message.contains("Extra blank line"));
}

#[test]
fn test_three_consecutive_empty_lines() {
    let diagnostics = run(b"def foo\nend\n\n\n\ndef bar\nend\n");
    assert_eq!(of_rule(&diagnostics, "Layout/EmptyLines").len(), 1);
}

#[test]
fn test_multiple_occurrences() {
    let diagnostics = run(b"def foo\nend\n\n\ndef bar\nend\n\n\ndef baz\nend\n");
    assert_eq!(of_rule(&diagnostics, "Layout/EmptyLines").len(), 2);
}

#[test]
fn empty_lines_test_empty_file() {
    let diagnostics = run(b"");
    assert_eq!(of_rule(&diagnostics, "Layout/EmptyLines").len(), 0);
}

#[test]
fn test_single_empty_line_ok() {
    let diagnostics = run(b"class Foo\n\n  def bar\n  end\nend\n");
    assert_eq!(of_rule(&diagnostics, "Layout/EmptyLines").len(), 0);
}

#[test]
fn extra_blank_lines_are_deleted_down_to_one() {
    // The fix deletes from the end of the first blank line to the next line with content.
    let source = b"def foo\nend\n\n\n\ndef bar\nend\n";
    let empty = of_rule(&run(source), "Layout/EmptyLines");
    assert_eq!((empty[0].start, empty[0].end), (13, 15));
    let fix = empty[0].fix.as_ref().unwrap();
    assert_eq!((fix.edits[0].start, fix.edits[0].end), (13, 15));
    assert_eq!(fix.edits[0].content, "");
    assert_eq!((empty[0].line, empty[0].column), (4, 1));
}

#[test]
fn test_no_leading_empty_lines() {
    let diagnostics = run(b"class Foo\nend\n");
    assert_eq!(of_rule(&diagnostics, "Layout/LeadingEmptyLines").len(), 0);
}

#[test]
fn test_one_leading_empty_line() {
    let diagnostics = run(b"\nclass Foo\nend\n");
    let leading = of_rule(&diagnostics, "Layout/LeadingEmptyLines");
    assert_eq!(leading.len(), 1);
    assert!(leading[0].message.contains("Unnecessary blank line"));
}

#[test]
fn test_multiple_leading_empty_lines() {
    let diagnostics = run(b"\n\n\nclass Foo\nend\n");
    let leading = of_rule(&diagnostics, "Layout/LeadingEmptyLines");
    assert_eq!(leading.len(), 1);
    assert!(leading[0].message.contains("3 lines"));
    assert_eq!(
        leading[0].message,
        "Unnecessary blank lines at the beginning of the source (3 lines)."
    );
    assert_eq!((leading[0].start, leading[0].end), (0, 3));
}

#[test]
fn test_leading_spaces_only() {
    let diagnostics = run(b"  class Foo\nend\n");
    assert_eq!(of_rule(&diagnostics, "Layout/LeadingEmptyLines").len(), 0);
}

#[test]
fn leading_empty_lines_test_empty_file() {
    let diagnostics = run(b"");
    assert_eq!(of_rule(&diagnostics, "Layout/LeadingEmptyLines").len(), 0);
}

#[test]
fn test_comment_at_start() {
    let diagnostics = run(b"# frozen_string_literal: true\nclass Foo\nend\n");
    assert_eq!(of_rule(&diagnostics, "Layout/LeadingEmptyLines").len(), 0);
}

#[test]
fn test_final_newline_ok() {
    let diagnostics = run(b"class Foo\nend\n");
    assert_eq!(of_rule(&diagnostics, "Layout/TrailingEmptyLines").len(), 0);
}

#[test]
fn test_missing_final_newline() {
    let diagnostics = run(b"class Foo\nend");
    let trailing = of_rule(&diagnostics, "Layout/TrailingEmptyLines");
    assert_eq!(trailing.len(), 1);
    assert!(trailing[0].message.contains("Final newline missing"));
}

#[test]
fn test_one_trailing_blank_line() {
    let diagnostics = run(b"class Foo\nend\n\n");
    let trailing = of_rule(&diagnostics, "Layout/TrailingEmptyLines");
    assert_eq!(trailing.len(), 1);
    assert!(trailing[0].message.contains("1 trailing blank line"));
}

#[test]
fn test_multiple_trailing_blank_lines() {
    let diagnostics = run(b"class Foo\nend\n\n\n");
    let trailing = of_rule(&diagnostics, "Layout/TrailingEmptyLines");
    assert_eq!(trailing.len(), 1);
    assert!(trailing[0].message.contains("2 trailing blank lines"));
}

fn apply_one(src: &[u8], d: &Diagnostic) -> Vec<u8> {
    let e = &d.fix.as_ref().unwrap().edits[0];
    [&src[..e.start], e.content.as_bytes(), &src[e.end..]].concat()
}

#[test]
fn trailing_empty_lines_fix_leaves_one_final_newline() {
    for src in [&b"class Foo\nend\n\n\n"[..], b"class Foo\nend\n\n", b"class Foo\nend", b"x  \n\n", b"\n\n"] {
        let diagnostics = run(src);
        let trailing = of_rule(&diagnostics, "Layout/TrailingEmptyLines");
        assert_eq!(trailing.len(), 1);
        let fixed = apply_one(src, &trailing[0]);
        assert!(fixed.ends_with(b"\n") && !fixed[..fixed.len() - 1].ends_with(b"\n") || fixed == b"\n");
    }
    let fixed = apply_one(b"class Foo\nend\n\n\n", &of_rule(&run(b"class Foo\nend\n\n\n"), "Layout/TrailingEmptyLines")[0]);
    assert_eq!(fixed, b"class Foo\nend\n".to_vec());
}

#[test]
fn empty_lines_ignores_single_blank_line_at_end() {
    let diagnostics = run(b"class Foo\nend\n\n");
    assert!(of_rule(&diagnostics, "Layout/EmptyLines").is_empty());
    let diagnostics = run(b"x\n\n\n");
    assert_eq!(of_rule(&diagnostics, "Layout/EmptyLines").len(), 1);
}

#[test]
fn trailing_empty_lines_test_empty_file() {
    let diagnostics = run(b"");
    assert_eq!(of_rule(&diagnostics, "Layout/TrailingEmptyLines").len(), 0);
}

#[test]
fn debugger_test_no_debugger() {
    let diagnostics = run(b"def foo\n  bar\nend\n");
    assert!(diagnostics.is_empty());
}

#[test]
fn debugger_test_binding_pry() {
    let diagnostics = run(b"def foo\n  binding.pry\nend\n");
    assert_eq!(diagnostics.len(), 1);
    assert_eq!(diagnostics[0].rule(), "Lint/Debugger");
    assert!(diagnostics[0].message.contains("binding.pry"));
    assert_eq!(diagnostics[0].message, "Debugger statement `binding.pry` detected.");
    assert_eq!((diagnostics[0].line, diagnostics[0].column), (2, 3));
    assert!(diagnostics[0].fix.is_none());
}

#[test]
fn debugger_test_byebug() {
    let diagnostics = run(b"def foo\n  byebug\nend\n");
    assert_eq!(diagnostics.len(), 1);
    assert!(diagnostics[0].message.contains("byebug"));
}

#[test]
fn debugger_test_debugger() {
    let diagnostics = run(b"def foo\n  debugger\nend\n");
    assert_eq!(diagnostics.len(), 1);
    assert!(diagnostics[0].message.contains("debugger"));
}

#[test]
fn debugger_test_binding_irb() {
    let diagnostics = run(b"def foo\n  binding.irb\nend\n");
    assert_eq!(diagnostics.len(), 1);
    assert!(diagnostics[0].message.contains("binding.irb"));
}

#[test]
fn debugger_test_multiple_debuggers() {
    let diagnostics = run(b"def foo\n  binding.pry\n  debugger\nend\n");
    assert_eq!(diagnostics.len(), 2);
}

#[test]
fn debugger_test_pry_rescue() {
    let diagnostics = run(b"Pry.rescue { foo }\n");
    let debugger = of_id(&diagnostics, RuleId::Lint(LintRule::Debugger));
    assert_eq!(debugger.len(), 1);
    assert!(debugger[0].message.contains("Pry.rescue"));
}

#[test]
fn trailing_whitespace_is_reported_with_fix() {
    let diagnostics = run(b"def foo  \n  bar\nend\n");
    assert_eq!(diagnostics.len(), 1);
    assert_eq!(diagnostics[0].rule(), "Layout/TrailingWhitespace");
    assert_eq!((diagnostics[0].start, diagnostics[0].end), (7, 9));
    assert_eq!((diagnostics[0].line, diagnostics[0].column), (1, 8));
}

#[test]
fn misaligned_end_of_def_is_reported() {
    let diagnostics = run(b"def foo\n  bar\n  end\n");
    let def_end = of_rule(&diagnostics, "Layout/DefEndAlignment");
    assert_eq!(def_end.len(), 1);
    assert_eq!(def_end[0].message, "`end` keyword should be aligned with its opening keyword.");
    assert_eq!((def_end[0].start, def_end[0].end), (16, 19));
    let fix = def_end[0].fix.as_ref().unwrap();
    assert_eq!((fix.edits[0].start, fix.edits[0].end), (14, 16));
}

#[test]
fn misindented_statement_is_reported() {
    let diagnostics = run(b"def foo\n    bar\nend\n");
    let consistency = of_rule(&diagnostics, "Layout/IndentationConsistency");
    assert_eq!(consistency.len(), 1);
    assert_eq!(consistency[0].message, "Incorrect indentation. Expected 2, found 4.");
}

// ---------------------------------------------------------------------------------------
// Applying fixes, with the diagnostics of each corrected source given by `check` over the
// source's tree.

use reukocyte::fix::{
    apply_fixes, apply_fixes_with_loop_detection, apply_fixes_with_remaining, InfiniteCorrectionLoop,
};

fn recheck(src: &[u8]) -> Vec<Diagnostic> {
    run(src)
}

#[test]
fn test_apply_trailing_whitespace_fix() {
    let source = b"def foo  \n  bar\nend\n";
    let diagnostics = run(source);
    assert_eq!(diagnostics.len(), 1);
    assert!(diagnostics[0].fix.is_some());
    let (fixed, count) = apply_fixes(None, source, &diagnostics, false, &recheck);
    assert_eq!(count, 1);
    assert_eq!(fixed, b"def foo\n  bar\nend\n");
}

#[test]
fn test_apply_multiple_fixes() {
    let source = b"def foo  \n  bar  \nend\n";
    let diagnostics = run(source);
    assert_eq!(diagnostics.len(), 2);
    let (fixed, count) = apply_fixes(None, source, &diagnostics, false, &recheck);
    assert_eq!(count, 2);
    assert_eq!(fixed, b"def foo\n  bar\nend\n");
}

#[test]
fn test_no_fix_for_debugger() {
    let source = b"def foo\n  binding.pry\nend\n";
    let diagnostics = run(source);
    assert_eq!(diagnostics.len(), 1);
    assert!(diagnostics[0].fix.is_none());
    let (fixed, count) = apply_fixes(None, source, &diagnostics, false, &recheck);
    assert_eq!(count, 0);
    assert_eq!(fixed, source);
}

#[test]
fn test_mixed_fixes() {
    let source = b"def foo  \n  binding.pry\nend\n";
    let diagnostics = run(source);
    assert_eq!(diagnostics.len(), 2);
    let (fixed, count) = apply_fixes(None, source, &diagnostics, false, &recheck);
    assert_eq!(count, 1);
    assert_eq!(fixed, b"def foo\n  binding.pry\nend\n");
}

#[test]
fn test_apply_fixes_with_remaining() {
    let source = b"def foo  \n  binding.pry\nend\n";
    let diagnostics = run(source);
    let (fixed, remaining, count) = apply_fixes_with_remaining(None, source, &diagnostics, false, &recheck);
    assert_eq!(count, 1);
    assert_eq!(fixed, b"def foo\n  binding.pry\nend\n");
    assert_eq!(remaining.len(), 1);
    assert_eq!(remaining[0].rule(), "Lint/Debugger");
}

#[test]
fn fix_test_whitespace_only_line() {
    let source = b"def foo\n   \nend\n";
    let diagnostics = run(source);
    assert_eq!(diagnostics.len(), 1);
    let (fixed, count) = apply_fixes(None, source, &diagnostics, false, &recheck);
    assert_eq!(count, 1);
    assert_eq!(fixed, b"def foo\n\nend\n");
}

#[test]
fn test_infinite_loop_error_display_with_path() {
    let err = InfiniteCorrectionLoop {
        path: Some("example.rb".to_string()),
        iteration: 5,
        loop_start: Some(2),
        offending_rules: vec!["Layout/TrailingWhitespace".to_string(), "Lint/Debugger".to_string()],
    };
    let msg = err.to_string();
    assert!(msg.contains("example.rb"));
    assert!(msg.contains("Layout/TrailingWhitespace -> Lint/Debugger"));
}

#[test]
fn test_infinite_loop_error_display_without_path() {
    let err = InfiniteCorrectionLoop { path: None, iteration: 5, loop_start: Some(2), offending_rules: vec![] };
    let msg = err.to_string();
    assert!(msg.contains("Infinite loop detected"));
    assert!(msg.contains("iteration 5"));
    assert!(msg.contains("iteration 2"));
}

#[test]
fn test_infinite_loop_error_display_max_iterations() {
    let err = InfiniteCorrectionLoop {
        path: Some("test.rb".to_string()),
        iteration: 200,
        loop_start: None,
        offending_rules: vec![],
    };
    let msg = err.to_string();
    assert!(msg.contains("test.rb"));
    assert!(msg.contains("200"));
    assert_eq!(msg, "Infinite loop detected in test.rb: exceeded 200 iterations");
}

#[test]
fn test_no_loop_on_normal_fix() {
    let source = b"def foo  \nend\n";
    let diagnostics = run(source);
    let result = apply_fixes_with_loop_detection(Some("test.rb"), source, &diagnostics, false, &recheck);
    assert!(result.is_ok());
    let (fixed, count) = result.unwrap();
    assert_eq!(count, 1);
    assert_eq!(fixed, b"def foo\nend\n");
}

#[test]
fn corrections_that_undo_each_other_are_a_loop() {
    // A recheck that alternates between two fixes: the third round meets the first source.
    fn flip(src: &[u8]) -> Vec<Diagnostic> {
        let (content, rule) = if src == b"a" {
            ("b", RuleId::Layout(LayoutRule::TrailingWhitespace))
        } else {
            ("a", RuleId::Lint(LintRule::Debugger))
        };
        vec![Diagnostic {
            rule_id: rule,
            message: String::new(),
            severity: Severity::Convention,
            start: 0,
            end: 1,
            line: 1,
            column: 1,
            fix: Some(Fix::safe(vec![Edit::replacement(0, 1, content.to_string())])),
        }]
    }
    let start = flip(b"a");
    let err = apply_fixes_with_loop_detection(Some("x.rb"), b"a", &start, false, &flip).unwrap_err();
    assert_eq!(err.iteration, 2);
    assert_eq!(err.loop_start, Some(0));
    assert_eq!(err.offending_rules, vec!["Layout/TrailingWhitespace".to_string(), "Lint/Debugger".to_string()]);
    assert_eq!(
        err.to_string(),
        "Infinite loop detected in x.rb and caused by Layout/TrailingWhitespace -> Lint/Debugger"
    );
    // The tolerant variant gives the source back unchanged.
    let (fixed, count) = apply_fixes(None, b"a", &start, false, &flip);
    assert_eq!((fixed, count), (b"a".to_vec(), 0));
}

// ---------------------------------------------------------------------------------------
// The debugger check that reports line and column by counting bytes.

fn lint(src: &[u8]) -> Vec<reukocyte::lint::Diagnostic> {
    reukocyte::lint::rules::debugger::check(src, &tree(src))
}

#[test]
fn lint_debugger_test_no_debugger() {
    assert!(lint(b"def foo\n  bar\nend\n").is_empty());
}

#[test]
fn lint_debugger_test_binding_pry() {
    let diagnostics = lint(b"def foo\n  binding.pry\nend\n");
    assert_eq!(diagnostics.len(), 1);
    assert_eq!(diagnostics[0].rule, "Lint/Debugger");
    assert!(diagnostics[0].message.contains("binding.pry"));
    assert_eq!((diagnostics[0].line, diagnostics[0].column), (2, 3));
}

#[test]
fn lint_debugger_test_byebug() {
    let diagnostics = lint(b"def foo\n  byebug\nend\n");
    assert_eq!(diagnostics.len(), 1);
    assert!(diagnostics[0].message.contains("byebug"));
}

#[test]
fn lint_debugger_test_debugger() {
    let diagnostics = lint(b"def foo\n  debugger\nend\n");
    assert_eq!(diagnostics.len(), 1);
    assert!(diagnostics[0].message.contains("debugger"));
}

#[test]
fn lint_debugger_test_binding_irb() {
    let diagnostics = lint(b"def foo\n  binding.irb\nend\n");
    assert_eq!(diagnostics.len(), 1);
    assert!(diagnostics[0].message.contains("binding.irb"));
}

#[test]
fn lint_debugger_test_multiple_debuggers() {
    assert_eq!(lint(b"def foo\n  binding.pry\n  debugger\nend\n").len(), 2);
}

#[test]
fn lint_debugger_test_pry_rescue() {
    let diagnostics = lint(b"Pry.rescue { foo }\n");
    assert_eq!(diagnostics.len(), 1);
    assert!(diagnostics[0].message.contains("Pry.rescue"));
}

#[test]
fn test_checksum_different_sources() {
    let source1 = b"hello";
    let source2 = b"world";
    assert_ne!(
        reukocyte::fix::LoopDetector::checksum(source1),
        reukocyte::fix::LoopDetector::checksum(source2)
    );
}

#[test]
fn test_checksum_same_source() {
    let source = b"hello world";
    assert_eq!(
        reukocyte::fix::LoopDetector::checksum(source),
        reukocyte::fix::LoopDetector::checksum(source)
    );
}

#[test]
fn check_fixes_lie_within_source() {
    let sources: [&[u8]; 5] = [
        b"class Foo\n  def bar   \n\tbinding.pry\n  end\n    end\n\n\n",
        b"\n\nx = 1\n\n\n\ny = 2",
        b"a\n   b\n",
        b"",
        b"foo  \n\t\n",
    ];
    for src in sources {
        let diagnostics = check(src, &tree(src));
        assert!(reukocyte::fix::all_fixes_within(&diagnostics, src.len()));
        for d in &diagnostics {
            if let Some(fix) = &d.fix {
                for e in &fix.edits {
                    assert!(e.start <= e.end && e.end <= src.len());
                }
            }
        }
    }
}
