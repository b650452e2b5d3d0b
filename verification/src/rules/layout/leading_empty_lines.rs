//! Layout/LeadingEmptyLines: blank lines at the beginning of the source.
use crate::checker::{report_model, Checker};
use crate::config::layout::LeadingEmptyLinesConfig;
use crate::diagnostic::{safe_fix_model, DiagnosticModel, Edit, Fix};
use crate::locator::{is_line_of, line_ranges, line_text, Line};
use crate::rule::{LayoutRule, RuleId};
use crate::text::{decimal, is_empty_line, is_empty_text, spec_decimal};
use vstd::prelude::*;
use vstd::string::StringExecFns;

verus! {

/// Rule identifier for Layout/LeadingEmptyLines.
pub struct LeadingEmptyLines;

/// The message for `n` leading blank lines.
pub open spec fn leading_message(n: nat) -> Seq<char> {
    if n == 1 {
        "Unnecessary blank line at the beginning of the source."@
    } else {
        "Unnecessary blank lines at the beginning of the source ("@ + spec_decimal(n)
            + " lines)."@
    }
}

/// Every line of `src` before line `i` is empty.
pub open spec fn all_empty_before(src: Seq<u8>, i: int) -> bool {
    forall|j: int| 0 <= j < i ==> #[trigger] is_empty_line(line_text(src, j))
}

/// The diagnostic for line `i` of `src`: reported at the first line that is not empty when
/// every line before it is, it covers those lines, which the fix deletes.
pub open spec fn leading_empty_lines_finding(
    src: Seq<u8>,
    cfg: LeadingEmptyLinesConfig,
    i: int,
) -> Option<DiagnosticModel> {
    if !cfg.enabled || i == 0 || is_empty_line(line_text(src, i)) || !all_empty_before(src, i) {
        None
    } else {
        let end = line_ranges(src)[i].0;
        Some(
            report_model(
                src,
                RuleId::Layout(LayoutRule::LeadingEmptyLines),
                leading_message(i as nat),
                cfg.severity,
                0,
                end,
                safe_fix_model(0, end, Seq::empty()),
            ),
        )
    }
}

/// The message for `n` leading blank lines.
fn leading_message_text(n: usize) -> (s: String)
    ensures
        s@ == leading_message(n as nat),
{
    if n == 1 {
        String::from_str("Unnecessary blank line at the beginning of the source.")
    } else {
        let mut s = String::from_str("Unnecessary blank lines at the beginning of the source (");
        let d = decimal(n);
        s.append(d.as_str());
        s.append(" lines).");
        s
    }
}

impl LeadingEmptyLines {
    /// Check one line for being the first line after leading blank lines.
    pub fn check(line: &Line, checker: &mut Checker)
        requires
            old(checker).wf(),
            is_line_of(old(checker).spec_source(), *line),
        ensures
            final(checker).wf(),
            final(checker).spec_source() == old(checker).spec_source(),
            final(checker).spec_config() == old(checker).spec_config(),
            final(checker).ignored_nodes() == old(checker).ignored_nodes(),
            final(checker).reported() == old(checker).reported() + match leading_empty_lines_finding(
                old(checker).spec_source(),
                old(checker).spec_config().layout.leading_empty_lines,
                line.index as int,
            ) {
                Some(d) => seq![d],
                None => Seq::empty(),
            },
    {
        let ghost src = checker.spec_source();
        let ghost nothing = Seq::<DiagnosticModel>::empty();
        let config = checker.config().layout.leading_empty_lines;
        if !config.enabled {
            assert(checker.reported() =~= checker.reported() + nothing);
            return;
        }
        let severity = config.severity;
        if is_empty_text(line.text) || line.index == 0 {
            assert(checker.reported() =~= checker.reported() + nothing);
            return;
        }
        let idx = checker.line_index();
        proof {
            crate::locator::lemma_line_ranges(src);
            idx.lemma_lines();
        }
        let mut j: usize = 0;
        while j < line.index
            invariant
                idx.wf(),
                idx.source() == src,
                is_line_of(src, *line),
                checker.wf(),
                checker.spec_source() == src,
                checker.spec_config() == old(checker).spec_config(),
                checker.reported() == old(checker).reported(),
                0 <= j <= line.index,
                all_empty_before(src, j as int),
            decreases line.index - j,
        {
            let prev = match idx.line(j) {
                Some(t) => t,
                None => &[],
            };
            proof {
                idx.lemma_lines();
            }
            assert(prev@ == line_text(src, j as int));
            if !is_empty_text(prev) {
                assert(!all_empty_before(src, line.index as int));
                assert(checker.reported() =~= checker.reported() + Seq::<DiagnosticModel>::empty());
                return;
            }
            j = j + 1;
        }
        let leading_count = line.index;
        let end = line.start;
        let message = leading_message_text(leading_count);
        let fix = Fix::safe(vec![Edit::deletion(0, end)]);
        proof {
            assert(crate::diagnostic::edit_models(fix.edits@) =~= seq![
                crate::diagnostic::EditModel { start: 0, end: end as int, content: Seq::empty() },
            ]);
        }
        checker.report(
            RuleId::Layout(LayoutRule::LeadingEmptyLines),
            message,
            severity,
            0,
            end,
            Some(fix),
        );
    }
}

} // verus!
