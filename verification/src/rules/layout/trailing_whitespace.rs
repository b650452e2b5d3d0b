//! Layout/TrailingWhitespace: spaces and tabs at the end of a line.
use crate::checker::{report_model, Checker};
use crate::diagnostic::{
    safe_fix_model, Applicability, DiagnosticModel, Edit, EditModel, Fix, FixModel, Severity,
};
use crate::locator::{is_indent_byte, is_line_of, line_ranges, line_text, Line};
use crate::rule::{LayoutRule, RuleId};
use vstd::prelude::*;
use vstd::string::StringExecFns;

verus! {

/// Rule identifier for Layout/TrailingWhitespace.
pub struct TrailingWhitespace;

/// The number of spaces and tabs at the end of `t`.
pub open spec fn trailing_blank_count(t: Seq<u8>) -> nat
    decreases t.len(),
{
    if t.len() == 0 {
        0
    } else if is_indent_byte(t.last()) {
        trailing_blank_count(t.drop_last()) + 1
    } else {
        0
    }
}

/// The diagnostic for line `i` of `src`: the trailing spaces and tabs, deleted by the fix.
pub open spec fn trailing_whitespace_finding(src: Seq<u8>, i: int) -> Option<DiagnosticModel> {
    let end = line_ranges(src)[i].1;
    let n = trailing_blank_count(line_text(src, i));
    if n == 0 {
        None
    } else {
        Some(
            report_model(
                src,
                RuleId::Layout(LayoutRule::TrailingWhitespace),
                "xxxx"@,
                Severity::Convention,
                end - n,
                end,
                safe_fix_model(end - n, end, Seq::empty()),
            ),
        )
    }
}

/// The number of spaces and tabs at the end of `text`.
pub fn count_trailing_blanks(text: &[u8]) -> (n: usize)
    ensures
        n == trailing_blank_count(text@),
        n <= text@.len(),
{
    let mut count: usize = 0;
    assert(text@.subrange(0, text@.len() as int) =~= text@);
    while count < text.len() && (text[text.len() - 1 - count] == 32u8 || text[text.len() - 1
        - count] == 9u8)
        invariant
            0 <= count <= text@.len(),
            trailing_blank_count(text@) == count + trailing_blank_count(
                text@.subrange(0, text@.len() - count),
            ),
        decreases text@.len() - count,
    {
        let ghost t = text@.subrange(0, text@.len() - count);
        assert(t.drop_last() =~= text@.subrange(0, text@.len() - count - 1));
        count = count + 1;
    }
    proof {
        let t = text@.subrange(0, text@.len() - count);
        if count < text@.len() {
            assert(t.last() == text@[text@.len() - 1 - count]);
        } else {
            assert(t.len() == 0);
        }
    }
    count
}

/// The trailing blanks that `trailing_blank_count` counts are the maximal run of spaces and tabs
/// that ends `t`.
proof fn lemma_trailing_blank_run(t: Seq<u8>)
    ensures
        trailing_blank_count(t) <= t.len(),
        forall|k: int|
            t.len() - trailing_blank_count(t) <= k < t.len() ==> (#[trigger] t[k] == 32u8 || t[k]
                == 9u8),
        trailing_blank_count(t) < t.len() ==> !(t[t.len() - trailing_blank_count(t) - 1] == 32u8
            || t[t.len() - trailing_blank_count(t) - 1] == 9u8),
    decreases t.len(),
{
    if t.len() > 0 && is_indent_byte(t.last()) {
        lemma_trailing_blank_run(t.drop_last());
        assert forall|k: int|
            t.len() - trailing_blank_count(t) <= k < t.len() implies (#[trigger] t[k] == 32u8
            || t[k] == 9u8) by {
            if k < t.len() - 1 {
                assert(t[k] == t.drop_last()[k]);
            }
        }
        if trailing_blank_count(t) < t.len() {
            assert(t[t.len() - trailing_blank_count(t) - 1] == t.drop_last()[t.len()
                - trailing_blank_count(t) - 1]);
        }
    }
}

/// A line of the source is reported by Layout/TrailingWhitespace exactly when it ends in a space
/// (byte 32) or a tab (byte 9). The report then covers the longest run of spaces and tabs that
/// ends the line, is a convention, and its safe fix deletes exactly that run.
pub proof fn lemma_trailing_whitespace_run(src: Seq<u8>, i: int)
    requires
        0 <= i < line_ranges(src).len(),
    ensures
        trailing_whitespace_finding(src, i) is Some <==> (line_ranges(src)[i].0
            < line_ranges(src)[i].1 && (src[line_ranges(src)[i].1 - 1] == 32u8 || src[line_ranges(
            src,
        )[i].1 - 1] == 9u8)),
        trailing_whitespace_finding(src, i) matches Some(d) ==> {
            &&& d.rule_id == RuleId::Layout(LayoutRule::TrailingWhitespace)
            &&& d.message == "xxxx"@
            &&& d.severity == Severity::Convention
            &&& d.end == line_ranges(src)[i].1
            &&& line_ranges(src)[i].0 <= d.start < d.end
            &&& forall|k: int| d.start <= k < d.end ==> (#[trigger] src[k] == 32u8 || src[k] == 9u8)
            &&& (d.start == line_ranges(src)[i].0 || !(src[d.start - 1] == 32u8 || src[d.start - 1]
                == 9u8))
            &&& d.fix == Some(
                FixModel {
                    applicability: Applicability::Safe,
                    edits: seq![EditModel { start: d.start, end: d.end, content: Seq::empty() }],
                },
            )
        },
{
    crate::locator::lemma_line_ranges(src);
    let r = line_ranges(src)[i];
    let t = line_text(src, i);
    lemma_trailing_blank_run(t);
    let n = trailing_blank_count(t);
    assert(t.len() == r.1 - r.0);
    assert forall|k: int| 0 <= k < t.len() implies #[trigger] t[k] == src[r.0 + k] by {}
    if r.0 < r.1 {
        assert(t[t.len() - 1] == src[r.1 - 1]);
        if n == 0 {
            assert(!(t[t.len() - 1] == 32u8 || t[t.len() - 1] == 9u8));
        } else {
            assert(t[t.len() - 1] == 32u8 || t[t.len() - 1] == 9u8);
        }
    }
    if n > 0 {
        assert forall|k: int| r.1 - n <= k < r.1 implies (#[trigger] src[k] == 32u8 || src[k]
            == 9u8) by {
            assert(t[k - r.0] == src[k]);
        }
        if r.1 - n > r.0 {
            assert(t[t.len() - n - 1] == src[r.1 - n - 1]);
        }
    }
}

impl TrailingWhitespace {
    /// Check one line for trailing whitespace.
    pub fn check(line: &Line, checker: &mut Checker)
        requires
            old(checker).wf(),
            is_line_of(old(checker).spec_source(), *line),
        ensures
            final(checker).wf(),
            final(checker).spec_source() == old(checker).spec_source(),
            final(checker).spec_config() == old(checker).spec_config(),
            final(checker).ignored_nodes() == old(checker).ignored_nodes(),
            final(checker).reported() == old(checker).reported() + match trailing_whitespace_finding(
                old(checker).spec_source(),
                line.index as int,
            ) {
                Some(d) => seq![d],
                None => Seq::empty(),
            },
    {
        proof {
            crate::locator::lemma_line_ranges(old(checker).spec_source());
            assert(0 <= line_ranges(old(checker).spec_source())[line.index as int].0);
            assert(line.text@.len() == line.end - line.start);
        }
        let count = count_trailing_blanks(line.text);
        if count != 0 {
            let report_start = line.end - count;
            let report_end = line.end;
            let fix = Fix::safe(vec![Edit::deletion(report_start, report_end)]);
            proof {
                assert(crate::diagnostic::edit_models(fix.edits@) =~= seq![
                    crate::diagnostic::EditModel { start: report_start as int, end: report_end as int, content: Seq::empty() },
                ]);
            }
            checker.report(
                RuleId::Layout(LayoutRule::TrailingWhitespace),
                String::from_str("xxxx"),
                Severity::Convention,
                report_start,
                report_end,
                Some(fix),
            );
        } else {
            assert(checker.reported() =~= checker.reported() + Seq::<DiagnosticModel>::empty());
        }
    }
}

} // verus!
