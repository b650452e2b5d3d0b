//! Layout/EndAlignment: the `end` of `class`, `module`, `if`, `unless`, `while`, `until` and
//! `case` stands in the column of the keyword, of the assigned variable, or of the start of
//! the line, as `EnforcedStyleAlignWith` says.
use crate::checker::{opt_seq, Checker};
use crate::config::layout::end_alignment::EnforcedStyleAlignWith;
use crate::config::layout::EndAlignmentConfig;
use crate::diagnostic::DiagnosticModel;
use crate::locator::{line_of, line_ranges};
use crate::rule::{LayoutRule, RuleId};
use crate::diagnostic::Applicability;
use crate::rules::layout::end_keyword_alignment::{
    col,
    lemma_end_fix_aligns,
    misaligned_end_finding,
    report_misaligned_end,
    same_line,
};
use crate::syntax::{
    ancestor,
    ancestor_of,
    call_chain_head,
    first_part_of_call_chain,
    is_assignment,
    is_conditional,
    parent,
    parent_of,
    spec_is_assignment,
    spec_is_conditional,
    NodeKind,
    SyntaxNode,
};
use vstd::prelude::*;

verus! {

/// Layout/EndAlignment rule.
pub struct EndAlignment;

/// Where the line holding offset `o` of `src` starts.
pub open spec fn line_start_of(src: Seq<u8>, o: int) -> int {
    line_ranges(src)[line_of(line_ranges(src), o)].0
}

/// The diagnostic for the `end` over `end_loc` of the node over `loc`, whose keyword starts
/// at `kw`, whose variable starts at `var`, and whose line starts at `sol`: none when the node
/// was marked to be skipped.
pub open spec fn end_kw_finding(
    src: Seq<u8>,
    cfg: EndAlignmentConfig,
    ignored: Seq<(usize, usize)>,
    loc: (usize, usize),
    end_loc: (usize, usize),
    kw: int,
    var: int,
    sol: int,
) -> Option<DiagnosticModel> {
    if ignored.contains(loc) || end_loc.0 > src.len() {
        None
    } else {
        let e = end_loc.0 as int;
        let (a, b) = match cfg.enforced_style_align_with {
            EnforcedStyleAlignWith::Keyword => (kw, e),
            EnforcedStyleAlignWith::Variable => (e, var),
            EnforcedStyleAlignWith::StartOfLine => (e, sol),
        };
        misaligned_end_finding(
            src,
            RuleId::Layout(LayoutRule::EndAlignment),
            cfg.severity,
            a,
            b,
            (e, end_loc.1 as int),
        )
    }
}

/// The diagnostics for a node that is not the value of an assignment.
pub open spec fn other_alignment(
    src: Seq<u8>,
    cfg: EndAlignmentConfig,
    ignored: Seq<(usize, usize)>,
    loc: (usize, usize),
    kw: usize,
    end_loc: (usize, usize),
) -> Seq<DiagnosticModel> {
    opt_seq(
        end_kw_finding(src, cfg, ignored, loc, end_loc, kw as int, kw as int, line_start_of(src, loc.0 as int)),
    )
}

/// The diagnostics for a node over `inner` that is the value of an assignment over `outer`;
/// the inner node is then marked to be skipped.
pub open spec fn asgn_alignment(
    src: Seq<u8>,
    cfg: EndAlignmentConfig,
    ignored: Seq<(usize, usize)>,
    outer: (usize, usize),
    inner: (usize, usize),
    kw: usize,
    end_loc: (usize, usize),
) -> (Seq<DiagnosticModel>, Seq<(usize, usize)>) {
    let var = if same_line(src, outer.0 as int, inner.0 as int) {
        outer.0 as int
    } else {
        inner.0 as int
    };
    (
        opt_seq(
            end_kw_finding(src, cfg, ignored, outer, end_loc, kw as int, var, line_start_of(src, inner.0 as int)),
        ),
        seq![inner],
    )
}

/// The byte range of node `i`.
pub open spec fn loc_of(t: Seq<SyntaxNode>, i: int) -> (usize, usize) {
    (t[i].start, t[i].end)
}

/// What the rule reports for node `i` of `t`, and the nodes that it marks to be skipped.
pub open spec fn end_alignment_step(
    src: Seq<u8>,
    cfg: EndAlignmentConfig,
    ignored: Seq<(usize, usize)>,
    t: Seq<SyntaxNode>,
    i: int,
) -> (Seq<DiagnosticModel>, Seq<(usize, usize)>) {
    let n = t[i];
    let none = (Seq::<DiagnosticModel>::empty(), Seq::<(usize, usize)>::empty());
    let other = match (n.keyword, n.end_keyword) {
        (Some(k), Some(e)) => (other_alignment(src, cfg, ignored, loc_of(t, i), k.0, e), Seq::<
            (usize, usize),
        >::empty()),
        _ => none,
    };
    match n.kind {
        NodeKind::Class | NodeKind::Module | NodeKind::If | NodeKind::Unless | NodeKind::While
        | NodeKind::Until => other,
        NodeKind::SingletonClass => match parent_of(t, i) {
            Some(p) => if spec_is_assignment(t[p].kind) {
                match (n.keyword, n.end_keyword) {
                    (Some(k), Some(e)) => asgn_alignment(src, cfg, ignored, loc_of(t, p), loc_of(t, i), k.0, e),
                    _ => none,
                }
            } else {
                other
            },
            None => other,
        },
        NodeKind::Case | NodeKind::CaseMatch => match parent_of(t, i) {
            Some(p) => if t[p].kind == NodeKind::Arguments {
                match (ancestor_of(t, i, 1), n.keyword, n.end_keyword) {
                    (Some(g), Some(k), Some(e)) => asgn_alignment(src, cfg, ignored, loc_of(t, g), loc_of(t, i), k.0, e),
                    _ => none,
                }
            } else {
                other
            },
            None => other,
        },
        _ => if spec_is_assignment(n.kind) {
            match n.value {
                Some(v) => match call_chain_head(t, v as int) {
                    Some(h) => {
                        let c = t[h];
                        if spec_is_conditional(c.kind) && !(c.kind == NodeKind::If && c.keyword is None) {
                            match (c.keyword, c.end_keyword) {
                                (Some(k), Some(e)) => asgn_alignment(src, cfg, ignored, loc_of(t, i), loc_of(t, h), k.0, e),
                                _ => none,
                            }
                        } else {
                            none
                        }
                    },
                    None => none,
                },
                None => none,
            }
        } else {
            none
        },
    }
}

/// Check the `end` of the node over `loc` against its keyword, its variable or the start of
/// its line, as the configured style says.
pub fn check_end_kw_alignment(
    loc: (usize, usize),
    end_loc: (usize, usize),
    keyword_start: usize,
    variable_start: usize,
    start_of_line: usize,
    checker: &mut Checker,
)
    requires
        old(checker).wf(),
    ensures
        final(checker).wf(),
        final(checker).spec_source() == old(checker).spec_source(),
        final(checker).spec_config() == old(checker).spec_config(),
        final(checker).ignored_nodes() == old(checker).ignored_nodes(),
        final(checker).reported() == old(checker).reported() + opt_seq(
            end_kw_finding(
                old(checker).spec_source(),
                old(checker).spec_config().layout.end_alignment,
                old(checker).ignored_nodes(),
                loc,
                end_loc,
                keyword_start as int,
                variable_start as int,
                start_of_line as int,
            ),
        ),
{
    if checker.is_ignored_node(loc.0, loc.1) || end_loc.0 > checker.source().len() {
        assert(checker.reported() =~= checker.reported() + Seq::<DiagnosticModel>::empty());
        return;
    }
    let cfg = checker.config().layout.end_alignment;
    let (a, b) = match cfg.enforced_style_align_with {
        EnforcedStyleAlignWith::Keyword => (keyword_start, end_loc.0),
        EnforcedStyleAlignWith::Variable => (end_loc.0, variable_start),
        EnforcedStyleAlignWith::StartOfLine => (end_loc.0, start_of_line),
    };
    report_misaligned_end(
        checker,
        RuleId::Layout(LayoutRule::EndAlignment),
        cfg.severity,
        a,
        b,
        end_loc.0,
        end_loc.1,
    );
}

/// Check a node that is not the value of an assignment.
pub fn check_other_alignment(
    node_loc: (usize, usize),
    keyword_start: usize,
    end_loc: (usize, usize),
    checker: &mut Checker,
)
    requires
        old(checker).wf(),
    ensures
        final(checker).wf(),
        final(checker).spec_source() == old(checker).spec_source(),
        final(checker).spec_config() == old(checker).spec_config(),
        final(checker).ignored_nodes() == old(checker).ignored_nodes(),
        final(checker).reported() == old(checker).reported() + other_alignment(
            old(checker).spec_source(),
            old(checker).spec_config().layout.end_alignment,
            old(checker).ignored_nodes(),
            node_loc,
            keyword_start,
            end_loc,
        ),
{
    let ghost src = checker.spec_source();
    let idx = checker.line_index();
    proof {
        crate::locator::lemma_split_line_of(src, idx@, node_loc.0 as int);
    }
    let start_of_line = idx.line_start_offset(node_loc.0);
    check_end_kw_alignment(node_loc, end_loc, keyword_start, keyword_start, start_of_line, checker);
}

/// Check a node over `inner_loc` that is the value of an assignment over `outer_loc`, then
/// mark it so that its own check is skipped.
pub fn check_asgn_alignment(
    outer_loc: (usize, usize),
    inner_loc: (usize, usize),
    inner_keyword_start: usize,
    inner_end_loc: (usize, usize),
    checker: &mut Checker,
)
    requires
        old(checker).wf(),
    ensures
        final(checker).wf(),
        final(checker).spec_source() == old(checker).spec_source(),
        final(checker).spec_config() == old(checker).spec_config(),
        ({
            let r = asgn_alignment(
                old(checker).spec_source(),
                old(checker).spec_config().layout.end_alignment,
                old(checker).ignored_nodes(),
                outer_loc,
                inner_loc,
                inner_keyword_start,
                inner_end_loc,
            );
            &&& final(checker).reported() == old(checker).reported() + r.0
            &&& final(checker).ignored_nodes() == old(checker).ignored_nodes() + r.1
        }),
{
    let ghost src = checker.spec_source();
    let idx = checker.line_index();
    proof {
        crate::locator::lemma_split_line_of(src, idx@, inner_loc.0 as int);
    }
    let variable_start = if idx.are_on_same_line(outer_loc.0, inner_loc.0) {
        outer_loc.0
    } else {
        inner_loc.0
    };
    let start_of_line = idx.line_start_offset(inner_loc.0);
    check_end_kw_alignment(outer_loc, inner_end_loc, inner_keyword_start, variable_start, start_of_line, checker);
    let ghost before = checker.ignored_nodes();
    checker.ignore_node(inner_loc.0, inner_loc.1);
    assert(checker.ignored_nodes() =~= before + seq![inner_loc]);
}

/// In the `keyword` style, an `end` is reported exactly when it stands on another line than its
/// opening keyword and in another column, and the fix puts it in the keyword's column: one safe
/// edit that ends at the `end`, inserting spaces before it or deleting bytes of its own line
/// before it.
pub proof fn lemma_keyword_end_fix(
    src: Seq<u8>,
    cfg: EndAlignmentConfig,
    ignored: Seq<(usize, usize)>,
    loc: (usize, usize),
    end_loc: (usize, usize),
    kw: int,
    var: int,
    sol: int,
)
    requires
        !ignored.contains(loc),
        end_loc.0 <= src.len(),
        0 <= kw,
        cfg.enforced_style_align_with == EnforcedStyleAlignWith::Keyword,
    ensures
        ({
            let end = end_loc.0 as int;
            let ls = line_ranges(src)[line_of(line_ranges(src), end)].0;
            &&& end_kw_finding(src, cfg, ignored, loc, end_loc, kw, var, sol) is None <==> (
            same_line(src, kw, end) || col(src, end) == col(src, kw))
            &&& end_kw_finding(src, cfg, ignored, loc, end_loc, kw, var, sol) matches Some(d) ==> {
                &&& d.rule_id == RuleId::Layout(LayoutRule::EndAlignment)
                &&& d.start == end
                &&& d.fix matches Some(f) && f.applicability == Applicability::Safe && f.edits.len()
                    == 1 && f.edits[0].end == end && ls <= f.edits[0].start <= end && (
                f.edits[0].start - ls) + f.edits[0].content.len() == col(src, kw)
            }
        }),
{
    lemma_end_fix_aligns(
        src,
        RuleId::Layout(LayoutRule::EndAlignment),
        cfg.severity,
        kw,
        (end_loc.0 as int, end_loc.1 as int),
    );
}

impl EndAlignment {
    /// Check node `i` of the tree.
    pub fn check(nodes: &Vec<SyntaxNode>, i: usize, checker: &mut Checker)
        requires
            old(checker).wf(),
            i < nodes@.len(),
        ensures
            final(checker).wf(),
            final(checker).spec_source() == old(checker).spec_source(),
            final(checker).spec_config() == old(checker).spec_config(),
            ({
                let r = end_alignment_step(
                    old(checker).spec_source(),
                    old(checker).spec_config().layout.end_alignment,
                    old(checker).ignored_nodes(),
                    nodes@,
                    i as int,
                );
                &&& final(checker).reported() == old(checker).reported() + r.0
                &&& final(checker).ignored_nodes() == old(checker).ignored_nodes() + r.1
            }),
    {
        let ghost none = Seq::<DiagnosticModel>::empty();
        let ghost no_ignored = Seq::<(usize, usize)>::empty();
        let n = &nodes[i];
        let loc = (n.start, n.end);
        match n.kind {
            NodeKind::Class | NodeKind::Module | NodeKind::If | NodeKind::Unless | NodeKind::While
            | NodeKind::Until => {
                Self::check_other(n, checker);
            },
            NodeKind::SingletonClass => {
                match parent(nodes, i) {
                    Some(p) => {
                        if is_assignment(nodes[p].kind) {
                            match (n.keyword, n.end_keyword) {
                                (Some(k), Some(e)) => {
                                    check_asgn_alignment((nodes[p].start, nodes[p].end), loc, k.0, e, checker);
                                },
                                _ => {
                                    assert(checker.reported() =~= checker.reported() + none);
                                    assert(checker.ignored_nodes() =~= checker.ignored_nodes() + no_ignored);
                                },
                            }
                        } else {
                            Self::check_other(n, checker);
                        }
                    },
                    None => {
                        Self::check_other(n, checker);
                    },
                }
            },
            NodeKind::Case | NodeKind::CaseMatch => {
                match parent(nodes, i) {
                    Some(p) => {
                        if nodes[p].kind == NodeKind::Arguments {
                            match (ancestor(nodes, i, 1), n.keyword, n.end_keyword) {
                                (Some(g), Some(k), Some(e)) => {
                                    check_asgn_alignment((nodes[g].start, nodes[g].end), loc, k.0, e, checker);
                                },
                                _ => {
                                    assert(checker.reported() =~= checker.reported() + none);
                                    assert(checker.ignored_nodes() =~= checker.ignored_nodes() + no_ignored);
                                },
                            }
                        } else {
                            Self::check_other(n, checker);
                        }
                    },
                    None => {
                        Self::check_other(n, checker);
                    },
                }
            },
            _ => {
                let mut done = false;
                if is_assignment(n.kind) {
                    if let Some(v) = n.value {
                        if let Some(h) = first_part_of_call_chain(nodes, v) {
                            let c = &nodes[h];
                            if is_conditional(c.kind) && !(c.kind == NodeKind::If && c.keyword.is_none()) {
                                if let (Some(k), Some(e)) = (c.keyword, c.end_keyword) {
                                    check_asgn_alignment(loc, (c.start, c.end), k.0, e, checker);
                                    done = true;
                                }
                            }
                        }
                    }
                }
                if !done {
                    assert(checker.reported() =~= checker.reported() + none);
                    assert(checker.ignored_nodes() =~= checker.ignored_nodes() + no_ignored);
                }
            },
        }
    }

    /// Check a node with its keyword and `end`, which is not the value of an assignment.
    fn check_other(n: &SyntaxNode, checker: &mut Checker)
        requires
            old(checker).wf(),
        ensures
            final(checker).wf(),
            final(checker).spec_source() == old(checker).spec_source(),
            final(checker).spec_config() == old(checker).spec_config(),
            final(checker).ignored_nodes() == old(checker).ignored_nodes(),
            final(checker).reported() == old(checker).reported() + match (n.keyword, n.end_keyword) {
                (Some(k), Some(e)) => other_alignment(
                    old(checker).spec_source(),
                    old(checker).spec_config().layout.end_alignment,
                    old(checker).ignored_nodes(),
                    (n.start, n.end),
                    k.0,
                    e,
                ),
                _ => Seq::empty(),
            },
    {
        match (n.keyword, n.end_keyword) {
            (Some(k), Some(e)) => {
                check_other_alignment((n.start, n.end), k.0, e, checker);
            },
            _ => {
                assert(checker.reported() =~= checker.reported() + Seq::<DiagnosticModel>::empty());
            },
        }
    }
}

} // verus!
