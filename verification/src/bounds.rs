//! Every fix that a check reports edits the checked source only: its edits lie within it.
use crate::checker::{line_phase, line_step, node_phase, node_step, opt_seq, report_model, spec_check};
use crate::config::Config;
use crate::diagnostic::{Diagnostic, DiagnosticModel, FixModel};
use crate::fix::fixes_within;
use crate::locator::{line_ranges, line_text, lemma_line_ranges};
use crate::rules::layout::begin_end_alignment::begin_end_finding;
use crate::rules::layout::def_end_alignment::def_end_finding;
use crate::rules::layout::empty_lines::{empty_lines_finding, next_non_empty};
use crate::rules::layout::end_alignment::{
    asgn_alignment,
    end_alignment_step,
    end_kw_finding,
    other_alignment,
};
use crate::rules::layout::end_keyword_alignment::{end_fix, misaligned_end_finding};
use crate::rules::layout::indentation_consistency::{consistency_findings, statement_finding, statements_findings};
use crate::rules::layout::indentation_style::{blank_prefix, indentation_style_finding, leading_tabs, tab_span};
use crate::rules::layout::leading_empty_lines::leading_empty_lines_finding;
use crate::rules::layout::trailing_empty_lines::{
    spec_analyze,
    spec_trailing_whitespace_start,
    trailing_empty_lines_finding,
    trailing_tail,
};
use crate::rules::layout::trailing_whitespace::{trailing_blank_count, trailing_whitespace_finding};
use crate::rules::lint::debugger::debugger_finding;
use crate::syntax::SyntaxNode;
use vstd::prelude::*;

verus! {

/// Every edit of every fix of `ds` lies within a source of length `len`.
pub open spec fn models_within(ds: Seq<DiagnosticModel>, len: int) -> bool {
    forall|i: int, k: int|
        0 <= i < ds.len() && ds[i].fix is Some && 0 <= k < ds[i].fix->0.edits.len() ==> {
            let e = #[trigger] ds[i].fix->0.edits[k];
            0 <= e.start <= e.end <= len
        }
}

/// A fix whose edits lie within a source of length `len`.
pub open spec fn fix_within(f: Option<FixModel>, len: int) -> bool {
    match f {
        Some(m) => forall|k: int| 0 <= k < m.edits.len() ==> {
            let e = #[trigger] m.edits[k];
            0 <= e.start <= e.end <= len
        },
        None => true,
    }
}

proof fn lemma_one(d: Option<DiagnosticModel>, len: int)
    requires
        d matches Some(m) ==> fix_within(m.fix, len),
    ensures
        models_within(opt_seq(d), len),
{
    if let Some(m) = d {
        assert(opt_seq(d) =~= seq![m]);
        assert forall|i: int, k: int|
            0 <= i < opt_seq(d).len() && opt_seq(d)[i].fix is Some && 0 <= k < opt_seq(d)[i].fix->0.edits.len()
            implies {
            let e = #[trigger] opt_seq(d)[i].fix->0.edits[k];
            0 <= e.start <= e.end <= len
        } by {
            assert(opt_seq(d)[i] == m);
        }
    }
}

proof fn lemma_append(a: Seq<DiagnosticModel>, b: Seq<DiagnosticModel>, len: int)
    requires
        models_within(a, len),
        models_within(b, len),
    ensures
        models_within(a + b, len),
{
    assert forall|i: int, k: int|
        0 <= i < (a + b).len() && (a + b)[i].fix is Some && 0 <= k < (a + b)[i].fix->0.edits.len()
        implies {
        let e = #[trigger] (a + b)[i].fix->0.edits[k];
        0 <= e.start <= e.end <= len
    } by {
        if i < a.len() {
            assert((a + b)[i] == a[i]);
        } else {
            assert((a + b)[i] == b[i - a.len()]);
        }
    }
}

proof fn lemma_empty(len: int)
    ensures
        models_within(Seq::<DiagnosticModel>::empty(), len),
{
}

proof fn lemma_misaligned(src: Seq<u8>, rule: crate::rule::RuleId, sev: crate::diagnostic::Severity, a: int, b: int, end_loc: (int, int))
    requires
        0 <= end_loc.0 <= src.len(),
    ensures
        models_within(opt_seq(misaligned_end_finding(src, rule, sev, a, b, end_loc)), src.len() as int),
{
    let f = misaligned_end_finding(src, rule, sev, a, b, end_loc);
    if let Some(m) = f {
        let d = crate::rules::layout::end_keyword_alignment::col(src, b) - crate::rules::layout::end_keyword_alignment::col(src, a);
        assert(m.fix == end_fix(end_loc.0, d));
    }
    lemma_one(f, src.len() as int);
}

proof fn lemma_end_kw(src: Seq<u8>, cfg: crate::config::layout::EndAlignmentConfig, ignored: Seq<(usize, usize)>, loc: (usize, usize), end_loc: (usize, usize), kw: int, var: int, sol: int)
    ensures
        models_within(opt_seq(end_kw_finding(src, cfg, ignored, loc, end_loc, kw, var, sol)), src.len() as int),
{
    if !(ignored.contains(loc) || end_loc.0 > src.len()) {
        let e = end_loc.0 as int;
        let (a, b) = match cfg.enforced_style_align_with {
            crate::config::layout::end_alignment::EnforcedStyleAlignWith::Keyword => (kw, e),
            crate::config::layout::end_alignment::EnforcedStyleAlignWith::Variable => (e, var),
            crate::config::layout::end_alignment::EnforcedStyleAlignWith::StartOfLine => (e, sol),
        };
        lemma_misaligned(src, crate::rule::RuleId::Layout(crate::rule::LayoutRule::EndAlignment), cfg.severity, a, b, (e, end_loc.1 as int));
    }
}

proof fn lemma_end_alignment_step(src: Seq<u8>, cfg: crate::config::layout::EndAlignmentConfig, ignored: Seq<(usize, usize)>, t: Seq<SyntaxNode>, i: int)
    requires
        0 <= i < t.len(),
    ensures
        models_within(end_alignment_step(src, cfg, ignored, t, i).0, src.len() as int),
{
    let n = t[i];
    reveal_with_fuel(crate::syntax::call_chain_head, 1);
    lemma_empty(src.len() as int);
    if let (Some(k), Some(e)) = (n.keyword, n.end_keyword) {
        lemma_end_kw(src, cfg, ignored, (n.start, n.end), e, k.0 as int, k.0 as int,
            crate::rules::layout::end_alignment::line_start_of(src, n.start as int));
    }
    match crate::syntax::parent_of(t, i) {
        Some(p) => {
            if let (Some(k), Some(e)) = (n.keyword, n.end_keyword) {
                let outer = (t[p].start, t[p].end);
                let inner = (n.start, n.end);
                let var = if crate::rules::layout::end_keyword_alignment::same_line(src, outer.0 as int, inner.0 as int) { outer.0 as int } else { inner.0 as int };
                lemma_end_kw(src, cfg, ignored, outer, e, k.0 as int, var, crate::rules::layout::end_alignment::line_start_of(src, inner.0 as int));
                match crate::syntax::ancestor_of(t, i, 1) {
                    Some(g) => {
                        let outer = (t[g].start, t[g].end);
                        let var = if crate::rules::layout::end_keyword_alignment::same_line(src, outer.0 as int, inner.0 as int) { outer.0 as int } else { inner.0 as int };
                        lemma_end_kw(src, cfg, ignored, outer, e, k.0 as int, var, crate::rules::layout::end_alignment::line_start_of(src, inner.0 as int));
                    },
                    None => {},
                }
            }
        },
        None => {},
    }
    match n.value {
        Some(v) => match crate::syntax::call_chain_head(t, v as int) {
            Some(h) => {
                let c = t[h];
                if let (Some(k), Some(e)) = (c.keyword, c.end_keyword) {
                    let outer = (n.start, n.end);
                    let inner = (c.start, c.end);
                    let var = if crate::rules::layout::end_keyword_alignment::same_line(src, outer.0 as int, inner.0 as int) { outer.0 as int } else { inner.0 as int };
                    lemma_end_kw(src, cfg, ignored, outer, e, k.0 as int, var, crate::rules::layout::end_alignment::line_start_of(src, inner.0 as int));
                }
            },
            None => {},
        },
        None => {},
    }
}

proof fn lemma_node_step(src: Seq<u8>, cfg: Config, ignored: Seq<(usize, usize)>, t: Seq<SyntaxNode>, i: int)
    requires
        0 <= i < t.len(),
    ensures
        models_within(node_step(src, cfg, ignored, t, i).0, src.len() as int),
{
    let len = src.len() as int;
    lemma_empty(len);
    lemma_end_alignment_step(src, cfg.layout.end_alignment, ignored, t, i);
    let ea = if cfg.layout.end_alignment.enabled {
        end_alignment_step(src, cfg.layout.end_alignment, ignored, t, i)
    } else {
        (Seq::empty(), Seq::empty())
    };
    let ign = ignored + ea.1;
    // Layout/BeginEndAlignment
    let n = t[i];
    if let Some(e) = n.end_keyword {
        if e.0 <= src.len() {
            lemma_misaligned(src, crate::rule::RuleId::Layout(crate::rule::LayoutRule::BeginEndAlignment), cfg.layout.begin_end_alignment.severity,
                crate::rules::layout::end_keyword_alignment::line_indent(src, n.start as int), e.0 as int, (e.0 as int, e.1 as int));
            if let Some(k) = n.keyword {
                lemma_misaligned(src, crate::rule::RuleId::Layout(crate::rule::LayoutRule::BeginEndAlignment), cfg.layout.begin_end_alignment.severity,
                    k.0 as int, e.0 as int, (e.0 as int, e.1 as int));
                let def = k.0 as int;
                let sol = match crate::syntax::ancestor_of(t, i, 1) {
                    Some(g) => if crate::utility::access_modifier::spec_is_access_modifier(t, g) {
                        crate::rules::layout::end_keyword_alignment::line_indent(src, def)
                    } else {
                        def
                    },
                    None => def,
                };
                lemma_misaligned(src, crate::rule::RuleId::Layout(crate::rule::LayoutRule::DefEndAlignment), crate::diagnostic::Severity::Convention,
                    sol, e.0 as int, (e.0 as int, e.1 as int));
                lemma_misaligned(src, crate::rule::RuleId::Layout(crate::rule::LayoutRule::DefEndAlignment), crate::diagnostic::Severity::Convention,
                    def, e.0 as int, (e.0 as int, e.1 as int));
            }
        }
    }
    lemma_one(begin_end_finding(src, cfg.layout.begin_end_alignment, ign, t, i), len);
    lemma_one(def_end_finding(src, cfg.layout.def_end_alignment, ign, t, i), len);
    lemma_consistency(src, t, i);
    lemma_one(debugger_finding(src, cfg.lint.debugger, t, i), len);
    let be = if cfg.layout.begin_end_alignment.enabled {
        opt_seq(begin_end_finding(src, cfg.layout.begin_end_alignment, ign, t, i))
    } else {
        Seq::empty()
    };
    let de = if cfg.layout.def_end_alignment.enabled {
        opt_seq(def_end_finding(src, cfg.layout.def_end_alignment, ign, t, i))
    } else {
        Seq::empty()
    };
    let ic = if cfg.layout.indentation_consistency.enabled {
        consistency_findings(src, t, i)
    } else {
        Seq::empty()
    };
    let db = if cfg.lint.debugger.enabled {
        opt_seq(debugger_finding(src, cfg.lint.debugger, t, i))
    } else {
        Seq::empty()
    };
    lemma_append(ea.0, be, len);
    lemma_append(ea.0 + be, de, len);
    lemma_append(ea.0 + be + de, ic, len);
    lemma_append(ea.0 + be + de + ic, db, len);
}

proof fn lemma_consistency(src: Seq<u8>, t: Seq<SyntaxNode>, i: int)
    requires
        0 <= i < t.len(),
    ensures
        models_within(consistency_findings(src, t, i), src.len() as int),
{
    lemma_empty(src.len() as int);
    if t[i].kind == crate::syntax::NodeKind::Statements {
        lemma_statements(src, t, i, t[i].children.len() as int);
    }
}

proof fn lemma_statements(src: Seq<u8>, t: Seq<SyntaxNode>, i: int, k: int)
    requires
        0 <= i < t.len(),
    ensures
        models_within(statements_findings(src, t, i, k), src.len() as int),
    decreases k,
{
    lemma_empty(src.len() as int);
    if k > 0 {
        lemma_statements(src, t, i, k - 1);
        let f = statement_finding(src, 2 * crate::rules::layout::indentation_consistency::nesting(t, i), t, t[i].children[k - 1] as int);
        lemma_one(f, src.len() as int);
        lemma_append(statements_findings(src, t, i, k - 1), opt_seq(f), src.len() as int);
    }
}

/// What the node rules report over the first `k` nodes has its fixes within the source.
proof fn lemma_node_phase(src: Seq<u8>, cfg: Config, t: Seq<SyntaxNode>, k: int)
    requires
        0 <= k <= t.len(),
    ensures
        models_within(node_phase(src, cfg, t, k).0, src.len() as int),
    decreases k,
{
    lemma_empty(src.len() as int);
    if k > 0 {
        lemma_node_phase(src, cfg, t, k - 1);
        let prev = node_phase(src, cfg, t, k - 1);
        lemma_node_step(src, cfg, prev.1, t, k - 1);
        lemma_append(prev.0, node_step(src, cfg, prev.1, t, k - 1).0, src.len() as int);
    }
}

proof fn lemma_blank_prefix_bound(t: Seq<u8>, k: int)
    requires
        0 <= k <= t.len(),
    ensures
        k <= blank_prefix(t, k) <= t.len(),
    decreases t.len() - k,
{
    if k < t.len() && crate::locator::is_indent_byte(t[k]) {
        lemma_blank_prefix_bound(t, k + 1);
    }
}

proof fn lemma_tab_span_bound(t: Seq<u8>, n: int)
    requires
        0 <= n,
    ensures
        tab_span(t, n) matches Some(p) ==> 0 <= p.0 < p.1 <= n,
    decreases n,
{
    if n > 0 {
        lemma_tab_span_bound(t, n - 1);
    }
}

proof fn lemma_trailing_blank_bound(t: Seq<u8>)
    ensures
        trailing_blank_count(t) <= t.len(),
    decreases t.len(),
{
    if t.len() > 0 {
        lemma_trailing_blank_bound(t.drop_last());
    }
}

proof fn lemma_trailing_tail_bound(t: Seq<u8>)
    ensures
        trailing_tail(t) <= t.len(),
    decreases t.len(),
{
    if t.len() > 0 {
        lemma_trailing_tail_bound(t.drop_last());
    }
}

proof fn lemma_next_non_empty_bound(src: Seq<u8>, j: int)
    requires
        0 <= j,
    ensures
        j <= next_non_empty(src, j) || next_non_empty(src, j) == line_ranges(src).len(),
        next_non_empty(src, j) <= line_ranges(src).len(),
    decreases line_ranges(src).len() - j,
{
    if j < line_ranges(src).len() && crate::text::is_empty_line(line_text(src, j)) {
        lemma_next_non_empty_bound(src, j + 1);
    }
}

proof fn lemma_line_step(src: Seq<u8>, cfg: Config, i: int)
    requires
        0 <= i < line_ranges(src).len(),
    ensures
        models_within(line_step(src, cfg, i), src.len() as int),
{
    let len = src.len() as int;
    lemma_line_ranges(src);
    let r = line_ranges(src)[i];
    let t = line_text(src, i);
    assert(t.len() == r.1 - r.0);
    // Layout/EmptyLines
    if i + 1 >= 0 {
        lemma_next_non_empty_bound(src, i + 1);
        let j = next_non_empty(src, i + 1);
        if j < line_ranges(src).len() {
            assert(0 <= line_ranges(src)[j].0 <= len);
            if i < j {
                assert(line_ranges(src)[i].0 <= line_ranges(src)[j].0) by {
                    crate::locator::lemma_line_ranges_ordered(src, i, j);
                }
            }
        }
    }
    lemma_one(empty_lines_finding(src, cfg.layout.empty_lines, i), len);
    // Layout/IndentationStyle
    lemma_blank_prefix_bound(t, 0);
    lemma_tab_span_bound(t, blank_prefix(t, 0));
    lemma_one(indentation_style_finding(src, cfg.layout.indentation_style, i), len);
    // Layout/LeadingEmptyLines
    lemma_one(leading_empty_lines_finding(src, cfg.layout.leading_empty_lines, i), len);
    // Layout/TrailingWhitespace
    lemma_trailing_blank_bound(t);
    lemma_one(trailing_whitespace_finding(src, i), len);
    lemma_append(
        opt_seq(empty_lines_finding(src, cfg.layout.empty_lines, i)),
        opt_seq(indentation_style_finding(src, cfg.layout.indentation_style, i)),
        len,
    );
    lemma_append(
        opt_seq(empty_lines_finding(src, cfg.layout.empty_lines, i)) + opt_seq(
            indentation_style_finding(src, cfg.layout.indentation_style, i),
        ),
        opt_seq(leading_empty_lines_finding(src, cfg.layout.leading_empty_lines, i)),
        len,
    );
    lemma_empty(len);
    let tw = if cfg.layout.trailing_whitespace.enabled {
        opt_seq(trailing_whitespace_finding(src, i))
    } else {
        Seq::empty()
    };
    lemma_append(
        opt_seq(empty_lines_finding(src, cfg.layout.empty_lines, i)) + opt_seq(
            indentation_style_finding(src, cfg.layout.indentation_style, i),
        ) + opt_seq(leading_empty_lines_finding(src, cfg.layout.leading_empty_lines, i)),
        tw,
        len,
    );
}

proof fn lemma_line_phase(src: Seq<u8>, cfg: Config, k: int)
    requires
        0 <= k <= line_ranges(src).len(),
    ensures
        models_within(line_phase(src, cfg, k), src.len() as int),
    decreases k,
{
    lemma_empty(src.len() as int);
    if k > 0 {
        lemma_line_phase(src, cfg, k - 1);
        lemma_line_step(src, cfg, k - 1);
        lemma_append(line_phase(src, cfg, k - 1), line_step(src, cfg, k - 1), src.len() as int);
    }
}

/// Every fix that a check of `src` reports, whatever the tree and the configuration, edits
/// `src` only within its bounds: each edit's range lies within the source.
pub proof fn lemma_check_fixes_within(src: Seq<u8>, cfg: Config, t: Seq<SyntaxNode>)
    ensures
        models_within(spec_check(src, cfg, t), src.len() as int),
{
    let len = src.len() as int;
    lemma_node_phase(src, cfg, t, t.len() as int);
    lemma_line_ranges(src);
    lemma_line_phase(src, cfg, line_ranges(src).len() as int);
    lemma_trailing_tail_bound(src);
    lemma_one(trailing_empty_lines_finding(src, cfg.layout.trailing_empty_lines), len);
    lemma_append(
        node_phase(src, cfg, t, t.len() as int).0,
        line_phase(src, cfg, line_ranges(src).len() as int),
        len,
    );
    lemma_append(
        node_phase(src, cfg, t, t.len() as int).0 + line_phase(src, cfg, line_ranges(src).len() as int),
        opt_seq(trailing_empty_lines_finding(src, cfg.layout.trailing_empty_lines)),
        len,
    );
}

/// Diagnostics whose models keep their fixes within the source keep them within it as the
/// application of fixes needs.
pub proof fn lemma_models_to_fixes(ds: Seq<Diagnostic>, len: int)
    requires
        models_within(crate::diagnostic::diagnostic_models(ds), len),
    ensures
        fixes_within(ds, len),
{
    assert forall|i: int, k: int|
        0 <= i < ds.len() && ds[i].fix is Some && 0 <= k < ds[i].fix->0.edits@.len() implies (
        #[trigger] ds[i].fix->0.edits@[k]).start <= len by {
        let m = crate::diagnostic::diagnostic_models(ds)[i];
        assert(m == ds[i]@);
        assert(m.fix->0.edits[k] == ds[i].fix->0.edits@[k]@);
    }
}

} // verus!
