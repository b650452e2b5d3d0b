//! Layout/DefEndAlignment: the `end` of a method definition stands in the column of `def`, or
//! of the start of its line, as `EnforcedStyleAlignWith` says.
use crate::checker::{opt_seq, Checker};
use crate::config::layout::def_end_alignment::EnforcedStyleAlignWith;
use crate::config::layout::DefEndAlignmentConfig;
use crate::diagnostic::{DiagnosticModel, Severity};
use crate::rule::{LayoutRule, RuleId};
use crate::diagnostic::Applicability;
use crate::locator::{line_of, line_ranges};
use crate::rules::layout::end_keyword_alignment::{
    col,
    lemma_end_fix_aligns,
    line_indent,
    same_line,
    line_indent_at,
    misaligned_end_finding,
    report_misaligned_end,
};
use crate::syntax::{ancestor, ancestor_of, NodeKind, SyntaxNode};
use crate::utility::access_modifier::{is_access_modifier, spec_is_access_modifier};
use vstd::prelude::*;

verus! {

/// Layout/DefEndAlignment rule.
pub struct DefEndAlignment;

/// The diagnostic for node `i` of `t` when it is a method definition; the start of its line
/// counts only for a definition that is the argument of an access modifier, as in
/// `private def foo`.
pub open spec fn def_end_finding(
    src: Seq<u8>,
    cfg: DefEndAlignmentConfig,
    ignored: Seq<(usize, usize)>,
    t: Seq<SyntaxNode>,
    i: int,
) -> Option<DiagnosticModel> {
    let n = t[i];
    if n.kind != NodeKind::Def {
        None
    } else {
        match (n.keyword, n.end_keyword) {
            (Some(k), Some(e)) => {
                let def = k.0 as int;
                let start_of_line = match ancestor_of(t, i, 1) {
                    Some(g) => if spec_is_access_modifier(t, g) {
                        line_indent(src, def)
                    } else {
                        def
                    },
                    None => def,
                };
                if ignored.contains((n.start, n.end)) || e.0 > src.len() {
                    None
                } else {
                    let a = match cfg.enforced_style_align_with {
                        EnforcedStyleAlignWith::StartOfLine => start_of_line,
                        EnforcedStyleAlignWith::Def => def,
                    };
                    misaligned_end_finding(
                        src,
                        RuleId::Layout(LayoutRule::DefEndAlignment),
                        Severity::Convention,
                        a,
                        e.0 as int,
                        (e.0 as int, e.1 as int),
                    )
                }
            },
            _ => None,
        }
    }
}

/// In the `def` style, the `end` of a method definition is reported exactly when it stands on
/// another line than `def` and in another column, and the fix puts it in the column of `def`:
/// one safe edit that ends at the `end`, inserting spaces before it or deleting bytes of its
/// own line before it.
pub proof fn lemma_def_end_fix(
    src: Seq<u8>,
    cfg: DefEndAlignmentConfig,
    ignored: Seq<(usize, usize)>,
    t: Seq<SyntaxNode>,
    i: int,
)
    requires
        0 <= i < t.len(),
        t[i].kind == NodeKind::Def,
        t[i].keyword is Some,
        t[i].end_keyword is Some,
        !ignored.contains((t[i].start, t[i].end)),
        t[i].end_keyword.unwrap().0 <= src.len(),
        cfg.enforced_style_align_with == EnforcedStyleAlignWith::Def,
    ensures
        ({
            let def = t[i].keyword.unwrap().0 as int;
            let end = t[i].end_keyword.unwrap().0 as int;
            let ls = line_ranges(src)[line_of(line_ranges(src), end)].0;
            &&& def_end_finding(src, cfg, ignored, t, i) is None <==> (same_line(src, def, end)
                || col(src, end) == col(src, def))
            &&& def_end_finding(src, cfg, ignored, t, i) matches Some(d) ==> {
                &&& d.rule_id == RuleId::Layout(LayoutRule::DefEndAlignment)
                &&& d.start == end
                &&& d.fix matches Some(f) && f.applicability == Applicability::Safe && f.edits.len()
                    == 1 && f.edits[0].end == end && ls <= f.edits[0].start <= end && (
                f.edits[0].start - ls) + f.edits[0].content.len() == col(src, def)
            }
        }),
{
    let k = t[i].keyword.unwrap();
    let e = t[i].end_keyword.unwrap();
    lemma_end_fix_aligns(
        src,
        RuleId::Layout(LayoutRule::DefEndAlignment),
        Severity::Convention,
        k.0 as int,
        (e.0 as int, e.1 as int),
    );
}

impl DefEndAlignment {
    /// Check node `i` of the tree.
    pub fn check(nodes: &Vec<SyntaxNode>, i: usize, checker: &mut Checker)
        requires
            old(checker).wf(),
            i < nodes@.len(),
        ensures
            final(checker).wf(),
            final(checker).spec_source() == old(checker).spec_source(),
            final(checker).spec_config() == old(checker).spec_config(),
            final(checker).ignored_nodes() == old(checker).ignored_nodes(),
            final(checker).reported() == old(checker).reported() + opt_seq(
                def_end_finding(
                    old(checker).spec_source(),
                    old(checker).spec_config().layout.def_end_alignment,
                    old(checker).ignored_nodes(),
                    nodes@,
                    i as int,
                ),
            ),
    {
        let ghost none = Seq::<DiagnosticModel>::empty();
        let n = &nodes[i];
        if n.kind != NodeKind::Def {
            assert(checker.reported() =~= checker.reported() + none);
            return;
        }
        let (k, e) = match (n.keyword, n.end_keyword) {
            (Some(k), Some(e)) => (k, e),
            _ => {
                assert(checker.reported() =~= checker.reported() + none);
                return;
            },
        };
        let def = k.0;
        let start_of_line = match ancestor(nodes, i, 1) {
            Some(g) => if is_access_modifier(nodes, g) {
                line_indent_at(checker, def)
            } else {
                def
            },
            None => def,
        };
        if checker.is_ignored_node(n.start, n.end) || e.0 > checker.source().len() {
            assert(checker.reported() =~= checker.reported() + none);
            return;
        }
        let a = match checker.config().layout.def_end_alignment.enforced_style_align_with {
            EnforcedStyleAlignWith::StartOfLine => start_of_line,
            EnforcedStyleAlignWith::Def => def,
        };
        report_misaligned_end(
            checker,
            RuleId::Layout(LayoutRule::DefEndAlignment),
            Severity::Convention,
            a,
            e.0,
            e.0,
            e.1,
        );
    }
}

} // verus!
