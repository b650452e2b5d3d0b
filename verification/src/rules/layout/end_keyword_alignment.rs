//! What the rules on the alignment of `end` keywords share: where a misaligned `end` is
//! reported, and how it is moved.
use crate::checker::{opt_seq, report_model, Checker};
use crate::config::layout::end_alignment::EnforcedStyleAlignWith;
use crate::diagnostic::{
    safe_fix_model, Applicability, DiagnosticModel, Edit, Fix, FixModel, Severity,
};
use crate::locator::{line_of, line_ranges, line_text};
use crate::rules::layout::indentation_style::{blank_prefix, lemma_indent_is_blank_prefix};
use crate::rule::RuleId;
use crate::text::{repeat_str, spec_repeat};
use vstd::prelude::*;
use vstd::string::StringExecFns;

verus! {

/// The offsets `a` and `b` of `src` lie on one line.
pub open spec fn same_line(src: Seq<u8>, a: int, b: int) -> bool {
    line_of(line_ranges(src), a) == line_of(line_ranges(src), b)
}

/// The 0-based column of offset `o` of `src`: its distance from the start of its line.
pub open spec fn col(src: Seq<u8>, o: int) -> int {
    o - line_ranges(src)[line_of(line_ranges(src), o)].0
}

/// The fix that moves an `end` at `at` by `delta` columns to the left (a positive `delta`:
/// the bytes before it are deleted, down to the start of the source at most) or to the right
/// (spaces are inserted before it).
pub open spec fn end_fix(at: int, delta: int) -> Option<FixModel> {
    if delta > 0 {
        safe_fix_model(
            if at - delta < 0 {
                0
            } else {
                at - delta
            },
            at,
            Seq::empty(),
        )
    } else {
        safe_fix_model(at, at, spec_repeat(" "@, (-delta) as nat))
    }
}

/// The diagnostic for an `end` over `end_loc` that should stand in the column of `a`, with
/// `b` the offset compared to `a`: none when the two lie on one line or in one column.
pub open spec fn misaligned_end_finding(
    src: Seq<u8>,
    rule_id: RuleId,
    severity: Severity,
    a: int,
    b: int,
    end_loc: (int, int),
) -> Option<DiagnosticModel> {
    if same_line(src, a, b) || col(src, b) == col(src, a) {
        None
    } else {
        Some(
            report_model(
                src,
                rule_id,
                "`end` keyword should be aligned with its opening keyword."@,
                severity,
                end_loc.0,
                end_loc.1,
                end_fix(end_loc.0, col(src, b) - col(src, a)),
            ),
        )
    }
}

/// `n` copies of a space are `n` spaces.
proof fn lemma_spaces(n: nat)
    ensures
        spec_repeat(" "@, n).len() == n,
        forall|k: int| 0 <= k < n ==> #[trigger] spec_repeat(" "@, n)[k] == ' ',
    decreases n,
{
    reveal_strlit(" ");
    if n > 0 {
        lemma_spaces((n - 1) as nat);
        let r = spec_repeat(" "@, n);
        assert forall|k: int| 0 <= k < n implies #[trigger] r[k] == ' ' by {
            if k < n - 1 {
                assert(r[k] == spec_repeat(" "@, (n - 1) as nat)[k]);
            }
        }
    }
}

/// The fix of a misaligned `end` moves it into the column of the offset `a` that it should
/// align with, and touches nothing but the start of its own line: it makes one safe edit that
/// ends at the `end`; an `end` left of that column gets exactly the missing spaces inserted
/// before it and nothing deleted, an `end` right of it gets the surplus bytes before it deleted,
/// all on its line, so that where the line holds only spaces and tabs before the `end`, only
/// those are deleted. No diagnostic comes when the two offsets share a line or a column.
pub proof fn lemma_end_fix_aligns(
    src: Seq<u8>,
    rule_id: RuleId,
    severity: Severity,
    a: int,
    end_loc: (int, int),
)
    requires
        0 <= a,
        0 <= end_loc.0 <= src.len(),
    ensures
        misaligned_end_finding(src, rule_id, severity, a, end_loc.0, end_loc) is None <==> (
        same_line(src, a, end_loc.0) || col(src, end_loc.0) == col(src, a)),
        misaligned_end_finding(src, rule_id, severity, a, end_loc.0, end_loc) matches Some(d)
            ==> {
            let ls = line_ranges(src)[line_of(line_ranges(src), end_loc.0)].0;
            let ca = col(src, a);
            let cb = end_loc.0 - ls;
            &&& d.rule_id == rule_id
            &&& d.severity == severity
            &&& d.start == end_loc.0
            &&& d.end == end_loc.1
            &&& d.fix matches Some(f) && {
                &&& f.applicability == Applicability::Safe
                &&& f.edits.len() == 1
                &&& f.edits[0].end == end_loc.0
                &&& ls <= f.edits[0].start <= end_loc.0
                &&& (f.edits[0].start - ls) + f.edits[0].content.len() == ca
                &&& forall|k: int|
                    0 <= k < f.edits[0].content.len() ==> #[trigger] f.edits[0].content[k] == ' '
                &&& cb < ca ==> f.edits[0].start == end_loc.0 && f.edits[0].content.len() == ca
                    - cb
                &&& cb > ca ==> f.edits[0].content.len() == 0
                &&& (forall|k: int| ls <= k < end_loc.0 ==> (#[trigger] src[k] == 32u8 || src[k]
                    == 9u8)) ==> forall|k: int|
                    f.edits[0].start <= k < end_loc.0 ==> (#[trigger] src[k] == 32u8 || src[k]
                        == 9u8)
            }
        },
{
    crate::locator::lemma_line_ranges(src);
    crate::locator::lemma_first_line_start(src);
    crate::locator::lemma_line_of(line_ranges(src), a);
    crate::locator::lemma_line_of(line_ranges(src), end_loc.0);
    let ca = col(src, a);
    let cb = col(src, end_loc.0);
    assert(0 <= ca);
    assert(0 <= cb);
    if cb < ca {
        lemma_spaces((ca - cb) as nat);
    }
}

/// The number of leading spaces and tabs of the line holding offset `o` of `src`.
pub open spec fn line_indent(src: Seq<u8>, o: int) -> int {
    blank_prefix(line_text(src, line_of(line_ranges(src), o)), 0)
}

/// The number of leading spaces and tabs of the line holding `offset`.
pub fn line_indent_at(checker: &Checker, offset: usize) -> (r: usize)
    requires
        checker.wf(),
    ensures
        r == line_indent(checker.spec_source(), offset as int),
{
    let idx = checker.line_index();
    let ghost src = checker.spec_source();
    proof {
        crate::locator::lemma_split_line_of(src, idx@, offset as int);
        idx.lemma_lines();
    }
    let r = idx.indentation(offset);
    proof {
        let l = idx.line_of(offset as int);
        assert(crate::locator::is_line_of(src, idx@[l]));
        lemma_indent_is_blank_prefix(line_text(src, l), r as int, 0);
    }
    r
}

/// Report the `end` over `end_start..end_end` when `b` is not on the line of `a` and not in
/// its column.
pub fn report_misaligned_end(
    checker: &mut Checker,
    rule_id: RuleId,
    severity: Severity,
    a: usize,
    b: usize,
    end_start: usize,
    end_end: usize,
)
    requires
        old(checker).wf(),
        end_start <= old(checker).spec_source().len(),
    ensures
        final(checker).wf(),
        final(checker).spec_source() == old(checker).spec_source(),
        final(checker).spec_config() == old(checker).spec_config(),
        final(checker).ignored_nodes() == old(checker).ignored_nodes(),
        final(checker).reported() == old(checker).reported() + opt_seq(
            misaligned_end_finding(
                old(checker).spec_source(),
                rule_id,
                severity,
                a as int,
                b as int,
                (end_start as int, end_end as int),
            ),
        ),
{
    let ghost src = checker.spec_source();
    let ghost nothing = Seq::<DiagnosticModel>::empty();
    let idx = checker.line_index();
    proof {
        crate::locator::lemma_split_line_of(src, idx@, a as int);
        crate::locator::lemma_split_line_of(src, idx@, b as int);
    }
    if idx.are_on_same_line(a, b) {
        assert(checker.reported() =~= checker.reported() + nothing);
        return;
    }
    let ca = idx.column(a);
    let cb = idx.column(b);
    assert(ca == col(src, a as int));
    assert(cb == col(src, b as int));
    if ca == cb {
        assert(checker.reported() =~= checker.reported() + nothing);
        return;
    }
    let fix = if cb > ca {
        let d = cb - ca;
        let start = if end_start >= d {
            end_start - d
        } else {
            0
        };
        let f = Fix::safe(vec![Edit::deletion(start, end_start)]);
        proof {
            assert(crate::diagnostic::edit_models(f.edits@) =~= seq![
                crate::diagnostic::EditModel { start: start as int, end: end_start as int, content: Seq::empty() },
            ]);
        }
        f
    } else {
        let d = ca - cb;
        let spaces = repeat_str(" ", d);
        let ghost content = spaces@;
        let f = Fix::safe(vec![Edit::insertion(end_start, spaces)]);
        proof {
            assert(crate::diagnostic::edit_models(f.edits@) =~= seq![
                crate::diagnostic::EditModel { start: end_start as int, end: end_start as int, content },
            ]);
        }
        f
    };
    checker.report(
        rule_id,
        String::from_str("`end` keyword should be aligned with its opening keyword."),
        severity,
        end_start,
        end_end,
        Some(fix),
    );
}

/// Whether the `end` of an assignment's right-hand side aligns with the variable: not in the
/// keyword style, nor where the right-hand side starts on a later line than the assignment.
pub fn should_variable_alignment(
    whole_expression_start: usize,
    rhs_start: usize,
    end_alignment_style: EnforcedStyleAlignWith,
    checker: &Checker,
) -> (r: bool)
    requires
        checker.wf(),
    ensures
        r == match end_alignment_style {
            EnforcedStyleAlignWith::Keyword => false,
            _ => !(line_of(line_ranges(checker.spec_source()), rhs_start as int) > line_of(
                line_ranges(checker.spec_source()),
                whole_expression_start as int,
            )),
        },
{
    match end_alignment_style {
        EnforcedStyleAlignWith::Keyword => false,
        _ => !has_break_before_keyword(whole_expression_start, rhs_start, checker),
    }
}

/// Whether the right-hand side starts on a later line than the whole expression.
pub fn has_break_before_keyword(whole_expression_start: usize, rhs_start: usize, checker: &Checker) -> (r:
    bool)
    requires
        checker.wf(),
    ensures
        r == (line_of(line_ranges(checker.spec_source()), rhs_start as int) > line_of(
            line_ranges(checker.spec_source()),
            whole_expression_start as int,
        )),
{
    let line_index = checker.line_index();
    let rhs_start_line = line_index.line_number(rhs_start);
    let expression_start_line = line_index.line_number(whole_expression_start);
    rhs_start_line > expression_start_line
}

} // verus!
