//! Layout/IndentationStyle: tabs in the indentation of a line.
use crate::checker::{report_model, Checker};
use crate::config::layout::IndentationStyleConfig;
use crate::diagnostic::{safe_fix_model, DiagnosticModel, Edit, Fix};
use crate::locator::{is_indent_byte, is_line_of, line_ranges, line_text, Line};
use crate::rule::{LayoutRule, RuleId};
use crate::text::{repeat_str, spec_repeat};
use vstd::prelude::*;
use vstd::string::StringExecFns;

verus! {

/// Rule identifier for Layout/IndentationStyle.
pub struct IndentationStyle;

/// The end of the run of spaces and tabs of `t` that goes on at `k`.
pub open spec fn blank_prefix(t: Seq<u8>, k: int) -> int
    decreases t.len() - k,
{
    if k < 0 || k >= t.len() || !is_indent_byte(t[k]) {
        k
    } else {
        blank_prefix(t, k + 1)
    }
}

/// The number of leading spaces and tabs of `t` is where its blank run ends.
pub proof fn lemma_indent_is_blank_prefix(t: Seq<u8>, n: int, j: int)
    requires
        crate::locator::is_indent_of(t, n),
        0 <= j <= n,
    ensures
        blank_prefix(t, j) == n,
    decreases n - j,
{
    if j < n {
        lemma_indent_is_blank_prefix(t, n, j + 1);
    }
}

/// The tabs among the first `n` bytes of `t`: from the first tab to just after the last one.
pub open spec fn tab_span(t: Seq<u8>, n: int) -> Option<(int, int)>
    decreases n,
{
    if n <= 0 {
        None
    } else if t[n - 1] == 9u8 {
        match tab_span(t, n - 1) {
            None => Some((n - 1, n)),
            Some(p) => Some((p.0, n)),
        }
    } else {
        tab_span(t, n - 1)
    }
}

/// The tabs in the indentation of `t`, as offsets in `t`.
pub open spec fn leading_tabs(t: Seq<u8>) -> Option<(int, int)> {
    tab_span(t, blank_prefix(t, 0))
}

/// The diagnostic for line `i` of `src`: the tabs of its indentation, which the fix replaces
/// by two spaces each.
pub open spec fn indentation_style_finding(
    src: Seq<u8>,
    cfg: IndentationStyleConfig,
    i: int,
) -> Option<DiagnosticModel> {
    if !cfg.enabled {
        None
    } else {
        match leading_tabs(line_text(src, i)) {
            None => None,
            Some(p) => {
                let start = line_ranges(src)[i].0 + p.0;
                let end = line_ranges(src)[i].0 + p.1;
                Some(
                    report_model(
                        src,
                        RuleId::Layout(LayoutRule::IndentationStyle),
                        "Tab detected in indentation."@,
                        cfg.severity,
                        start,
                        end,
                        safe_fix_model(start, end, spec_repeat(" "@, (2 * (p.1 - p.0)) as nat)),
                    ),
                )
            },
        }
    }
}

/// Find the range of leading tabs in a line.
/// Returns (start, end) offsets relative to line start, or None if no leading tabs.
pub fn find_leading_tabs(line: &[u8]) -> (r: Option<(usize, usize)>)
    ensures
        match (r, leading_tabs(line@)) {
            (None, None) => true,
            (Some(a), Some(b)) => a.0 == b.0 && a.1 == b.1,
            _ => false,
        },
        match r {
            Some(p) => p.0 < p.1 <= line@.len(),
            None => true,
        },
{
    let mut start: Option<usize> = None;
    let mut end: usize = 0;
    let mut i: usize = 0;
    while i < line.len()
        invariant
            0 <= i <= line@.len(),
            blank_prefix(line@, i as int) == blank_prefix(line@, 0),
            match (start, tab_span(line@, i as int)) {
                (None, None) => true,
                (Some(s), Some(p)) => s == p.0 && end == p.1 && s < end <= i,
                _ => false,
            },
        ensures
            blank_prefix(line@, 0) == i,
            match (start, tab_span(line@, i as int)) {
                (None, None) => true,
                (Some(s), Some(p)) => s == p.0 && end == p.1 && s < end <= i,
                _ => false,
            },
        decreases line@.len() - i,
    {
        let b = line[i];
        if b == 9u8 {
            if start.is_none() {
                start = Some(i);
            }
            end = i + 1;
        } else if b == 32u8 {
        } else {
            break;
        }
        i = i + 1;
    }
    match start {
        Some(s) => Some((s, end)),
        None => None,
    }
}

impl IndentationStyle {
    /// Check one line for tabs in its indentation.
    pub fn check(line: &Line, checker: &mut Checker)
        requires
            old(checker).wf(),
            is_line_of(old(checker).spec_source(), *line),
        ensures
            final(checker).wf(),
            final(checker).spec_source() == old(checker).spec_source(),
            final(checker).spec_config() == old(checker).spec_config(),
            final(checker).ignored_nodes() == old(checker).ignored_nodes(),
            final(checker).reported() == old(checker).reported() + match indentation_style_finding(
                old(checker).spec_source(),
                old(checker).spec_config().layout.indentation_style,
                line.index as int,
            ) {
                Some(d) => seq![d],
                None => Seq::empty(),
            },
    {
        let ghost nothing = Seq::<DiagnosticModel>::empty();
        let config = checker.config().layout.indentation_style;
        if !config.enabled {
            assert(checker.reported() =~= checker.reported() + nothing);
            return;
        }
        let severity = config.severity;
        proof {
            crate::locator::lemma_line_ranges(checker.spec_source());
            assert(line.text@.len() == line.end - line.start);
        }
        match find_leading_tabs(line.text) {
            Some((tab_start, tab_end)) => {
                let abs_start = line.start + tab_start;
                let abs_end = line.start + tab_end;
                let tab_count = tab_end - tab_start;
                assert(tab_count * 2 <= usize::MAX) by {
                    checker.lemma_source_len();
                    assert(tab_count <= checker.spec_source().len());
                }
                let replacement = repeat_str(" ", tab_count * 2);
                let ghost content = replacement@;
                let fix = Fix::safe(vec![Edit::replacement(abs_start, abs_end, replacement)]);
                proof {
                    assert(crate::diagnostic::edit_models(fix.edits@) =~= seq![
                        crate::diagnostic::EditModel { start: abs_start as int, end: abs_end as int, content },
                    ]);
                }
                checker.report(
                    RuleId::Layout(LayoutRule::IndentationStyle),
                    String::from_str("Tab detected in indentation."),
                    severity,
                    abs_start,
                    abs_end,
                    Some(fix),
                );
            },
            None => {
                assert(checker.reported() =~= checker.reported() + nothing);
            },
        }
    }
}

} // verus!
