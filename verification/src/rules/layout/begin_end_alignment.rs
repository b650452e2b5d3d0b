//! Layout/BeginEndAlignment: the `end` of a `begin` block stands in the column of `begin`, or
//! of the start of its line, as `EnforcedStyleAlignWith` says.
use crate::checker::{opt_seq, Checker};
use crate::config::layout::begin_end_alignment::EnforcedStyleAlignWith;
use crate::config::layout::BeginEndAlignmentConfig;
use crate::diagnostic::DiagnosticModel;
use crate::rule::{LayoutRule, RuleId};
use crate::diagnostic::Applicability;
use crate::locator::{line_of, line_ranges};
use crate::rules::layout::end_keyword_alignment::{
    col,
    lemma_end_fix_aligns,
    line_indent,
    same_line,
    line_indent_at,
    misaligned_end_finding,
    report_misaligned_end,
};
use crate::syntax::{NodeKind, SyntaxNode};
use vstd::prelude::*;

verus! {

/// Layout/BeginEndAlignment rule.
pub struct BeginEndAlignment;

/// The diagnostic for node `i` of `t` when it is a `begin` block with an `end`.
pub open spec fn begin_end_finding(
    src: Seq<u8>,
    cfg: BeginEndAlignmentConfig,
    ignored: Seq<(usize, usize)>,
    t: Seq<SyntaxNode>,
    i: int,
) -> Option<DiagnosticModel> {
    let n = t[i];
    if n.kind != NodeKind::Begin || ignored.contains((n.start, n.end)) {
        None
    } else {
        match n.end_keyword {
            None => None,
            Some(e) => if e.0 > src.len() {
                None
            } else {
                match cfg.enforced_style_align_with {
                    EnforcedStyleAlignWith::StartOfLine => misaligned_end_finding(
                        src,
                        RuleId::Layout(LayoutRule::BeginEndAlignment),
                        cfg.severity,
                        line_indent(src, n.start as int),
                        e.0 as int,
                        (e.0 as int, e.1 as int),
                    ),
                    EnforcedStyleAlignWith::Begin => match n.keyword {
                        None => None,
                        Some(k) => misaligned_end_finding(
                            src,
                            RuleId::Layout(LayoutRule::BeginEndAlignment),
                            cfg.severity,
                            k.0 as int,
                            e.0 as int,
                            (e.0 as int, e.1 as int),
                        ),
                    },
                }
            },
        }
    }
}

/// In the `begin` style, the `end` of a `begin` block is reported exactly when it stands on
/// another line than `begin` and in another column, and the fix puts it in the column of
/// `begin`: one safe edit that ends at the `end`, inserting spaces before it or deleting bytes
/// of its own line before it.
pub proof fn lemma_begin_end_fix(
    src: Seq<u8>,
    cfg: BeginEndAlignmentConfig,
    ignored: Seq<(usize, usize)>,
    t: Seq<SyntaxNode>,
    i: int,
)
    requires
        0 <= i < t.len(),
        t[i].kind == NodeKind::Begin,
        t[i].keyword is Some,
        t[i].end_keyword is Some,
        !ignored.contains((t[i].start, t[i].end)),
        t[i].end_keyword.unwrap().0 <= src.len(),
        cfg.enforced_style_align_with == EnforcedStyleAlignWith::Begin,
    ensures
        ({
            let begin = t[i].keyword.unwrap().0 as int;
            let end = t[i].end_keyword.unwrap().0 as int;
            let ls = line_ranges(src)[line_of(line_ranges(src), end)].0;
            &&& begin_end_finding(src, cfg, ignored, t, i) is None <==> (same_line(src, begin, end)
                || col(src, end) == col(src, begin))
            &&& begin_end_finding(src, cfg, ignored, t, i) matches Some(d) ==> {
                &&& d.rule_id == RuleId::Layout(LayoutRule::BeginEndAlignment)
                &&& d.start == end
                &&& d.fix matches Some(f) && f.applicability == Applicability::Safe && f.edits.len()
                    == 1 && f.edits[0].end == end && ls <= f.edits[0].start <= end && (
                f.edits[0].start - ls) + f.edits[0].content.len() == col(src, begin)
            }
        }),
{
    let k = t[i].keyword.unwrap();
    let e = t[i].end_keyword.unwrap();
    lemma_end_fix_aligns(
        src,
        RuleId::Layout(LayoutRule::BeginEndAlignment),
        cfg.severity,
        k.0 as int,
        (e.0 as int, e.1 as int),
    );
}

impl BeginEndAlignment {
    /// Check node `i` of the tree.
    pub fn check(nodes: &Vec<SyntaxNode>, i: usize, checker: &mut Checker)
        requires
            old(checker).wf(),
            i < nodes@.len(),
        ensures
            final(checker).wf(),
            final(checker).spec_source() == old(checker).spec_source(),
            final(checker).spec_config() == old(checker).spec_config(),
            final(checker).ignored_nodes() == old(checker).ignored_nodes(),
            final(checker).reported() == old(checker).reported() + opt_seq(
                begin_end_finding(
                    old(checker).spec_source(),
                    old(checker).spec_config().layout.begin_end_alignment,
                    old(checker).ignored_nodes(),
                    nodes@,
                    i as int,
                ),
            ),
    {
        let ghost none = Seq::<DiagnosticModel>::empty();
        let n = &nodes[i];
        if n.kind != NodeKind::Begin || checker.is_ignored_node(n.start, n.end) {
            assert(checker.reported() =~= checker.reported() + none);
            return;
        }
        let e = match n.end_keyword {
            Some(e) => e,
            None => {
                assert(checker.reported() =~= checker.reported() + none);
                return;
            },
        };
        if e.0 > checker.source().len() {
            assert(checker.reported() =~= checker.reported() + none);
            return;
        }
        let cfg = checker.config().layout.begin_end_alignment;
        match cfg.enforced_style_align_with {
            EnforcedStyleAlignWith::StartOfLine => {
                let start_of_line = line_indent_at(checker, n.start);
                report_misaligned_end(
                    checker,
                    RuleId::Layout(LayoutRule::BeginEndAlignment),
                    cfg.severity,
                    start_of_line,
                    e.0,
                    e.0,
                    e.1,
                );
            },
            EnforcedStyleAlignWith::Begin => {
                match n.keyword {
                    Some(k) => {
                        report_misaligned_end(
                            checker,
                            RuleId::Layout(LayoutRule::BeginEndAlignment),
                            cfg.severity,
                            k.0,
                            e.0,
                            e.0,
                            e.1,
                        );
                    },
                    None => {
                        assert(checker.reported() =~= checker.reported() + none);
                    },
                }
            },
        }
    }
}

} // verus!
