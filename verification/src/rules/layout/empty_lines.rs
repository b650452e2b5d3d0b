//! Layout/EmptyLines: two or more consecutive blank lines.
use crate::checker::{report_model, Checker};
use crate::config::layout::EmptyLinesConfig;
use crate::diagnostic::{safe_fix_model, DiagnosticModel, Edit, Fix};
use crate::locator::{is_line_of, line_ranges, line_text, newline_after, Line, LineIndex};
use crate::rule::{LayoutRule, RuleId};
use crate::text::{is_empty_line, is_empty_text};
use vstd::prelude::*;
use vstd::string::StringExecFns;

verus! {

/// Rule identifier for Layout/EmptyLines.
pub struct EmptyLines;

/// The first line at or after line `j` of `src` that is not empty, or the number of lines.
pub open spec fn next_non_empty(src: Seq<u8>, j: int) -> int
    decreases line_ranges(src).len() - j,
{
    if j >= line_ranges(src).len() || j < 0 {
        line_ranges(src).len() as int
    } else if !is_empty_line(line_text(src, j)) {
        j
    } else {
        next_non_empty(src, j + 1)
    }
}

/// Whether line `i` of `src` is the empty piece after a final newline, which ends the
/// source rather than being a line of it.
pub open spec fn is_end_piece(src: Seq<u8>, i: int) -> bool {
    i + 1 == line_ranges(src).len() && line_text(src, i).len() == 0
}

/// The diagnostic for line `i` of `src`: reported at the second of two or more consecutive
/// empty lines, it covers the empty lines after the first, which the fix deletes. The empty
/// piece after a final newline is no line.
pub open spec fn empty_lines_finding(src: Seq<u8>, cfg: EmptyLinesConfig, i: int) -> Option<
    DiagnosticModel,
> {
    if !cfg.enabled || i == 0 || is_end_piece(src, i) || !is_empty_line(line_text(src, i)) || !is_empty_line(
        line_text(src, i - 1),
    ) || (i - 1 > 0 && is_empty_line(line_text(src, i - 2))) {
        None
    } else {
        let start = line_ranges(src)[i].0;
        let j = next_non_empty(src, i + 1);
        let end = if j < line_ranges(src).len() {
            line_ranges(src)[j].0
        } else {
            src.len() as int
        };
        Some(
            report_model(
                src,
                RuleId::Layout(LayoutRule::EmptyLines),
                "Extra blank line detected."@,
                cfg.severity,
                start,
                end,
                safe_fix_model(start, end, Seq::empty()),
            ),
        )
    }
}

impl EmptyLines {
    /// Check one line for being the second of consecutive empty lines.
    pub fn check(line: &Line, checker: &mut Checker)
        requires
            old(checker).wf(),
            is_line_of(old(checker).spec_source(), *line),
        ensures
            final(checker).wf(),
            final(checker).spec_source() == old(checker).spec_source(),
            final(checker).spec_config() == old(checker).spec_config(),
            final(checker).ignored_nodes() == old(checker).ignored_nodes(),
            final(checker).reported() == old(checker).reported() + match empty_lines_finding(
                old(checker).spec_source(),
                old(checker).spec_config().layout.empty_lines,
                line.index as int,
            ) {
                Some(d) => seq![d],
                None => Seq::empty(),
            },
    {
        let ghost src = checker.spec_source();
        let config = checker.config().layout.empty_lines;
        let idx = checker.line_index();
        proof {
            crate::locator::lemma_line_ranges(src);
            idx.lemma_lines();
        }
        let ghost nothing = Seq::<DiagnosticModel>::empty();
        if !config.enabled {
            assert(checker.reported() =~= checker.reported() + nothing);
            return;
        }
        let severity = config.severity;
        let is_empty = is_empty_text(line.text);
        let end_piece = line.index + 1 == idx.line_count() && line.text.len() == 0;
        if !is_empty || line.index == 0 || end_piece {
            assert(checker.reported() =~= checker.reported() + nothing);
            return;
        }
        let prev_idx = line.index - 1;
        let prev_text = match idx.line(prev_idx) {
            Some(t) => t,
            None => &[],
        };
        assert(prev_text@ == line_text(src, prev_idx as int));
        let prev_is_empty = is_empty_text(prev_text);
        if !prev_is_empty {
            assert(checker.reported() =~= checker.reported() + nothing);
            return;
        }
        if prev_idx > 0 {
            let prev_prev_text = match idx.line(prev_idx - 1) {
                Some(t) => t,
                None => &[],
            };
            assert(prev_prev_text@ == line_text(src, prev_idx - 1));
            if is_empty_text(prev_prev_text) {
                assert(checker.reported() =~= checker.reported() + nothing);
                return;
            }
        }
        let prev_start = match idx.line_start(prev_idx) {
            Some(s) => s,
            None => 0,
        };
        let mut first_empty_end = prev_start + prev_text.len();
        if first_empty_end < checker.source().len() && checker.source()[first_empty_end] == 10u8 {
            first_empty_end = first_empty_end + 1;
        }
        proof {
            assert(newline_after(src, idx@, prev_idx as int));
            assert(idx@[line.index as int].start == line.start);
            assert(first_empty_end == line.start);
        }
        let line_count = idx.line_count();
        let mut j = line.index + 1;
        while j < line_count
            invariant
                idx.wf(),
                idx.source() == src,
                line_count == line_ranges(src).len(),
                line.index < j <= line_count,
                next_non_empty(src, line.index + 1) == next_non_empty(src, j as int),
            ensures
                j < line_count ==> !is_empty_line(line_text(src, j as int)),
            decreases line_count - j,
        {
            let nt = match idx.line(j) {
                Some(t) => t,
                None => &[],
            };
            proof {
                idx.lemma_lines();
            }
            assert(nt@ == line_text(src, j as int));
            if !is_empty_text(nt) {
                break;
            }
            j = j + 1;
        }
        let end_offset = if j < line_count {
            match idx.line_start(j) {
                Some(s) => s,
                None => checker.source().len(),
            }
        } else {
            checker.source().len()
        };
        proof {
            idx.lemma_lines();
            if j < line_count {
                assert(!is_empty_line(line_text(src, j as int)) ==> next_non_empty(src, j as int) == j);
            }
        }
        proof {
            let i = line.index as int;
            assert(config == checker.spec_config().layout.empty_lines);
            assert(is_empty_line(line_text(src, i)));
            assert(is_empty_line(line_text(src, i - 1)));
            assert(!(i - 1 > 0 && is_empty_line(line_text(src, i - 2))));
            assert(first_empty_end == line_ranges(src)[i].0);
            let jj = next_non_empty(src, i + 1);
            assert(end_offset == (if jj < line_ranges(src).len() { line_ranges(src)[jj].0 } else { src.len() as int }));
        }
        let fix = Fix::safe(vec![Edit::deletion(first_empty_end, end_offset)]);
        proof {
            assert(crate::diagnostic::edit_models(fix.edits@) =~= seq![
                crate::diagnostic::EditModel { start: first_empty_end as int, end: end_offset as int, content: Seq::empty() },
            ]);
        }
        checker.report(
            RuleId::Layout(LayoutRule::EmptyLines),
            String::from_str("Extra blank line detected."),
            severity,
            first_empty_end,
            end_offset,
            Some(fix),
        );
    }
}

/// The first newline of `src` at or after `start`.
pub open spec fn first_newline_from(src: Seq<u8>, start: int) -> Option<int>
    decreases src.len() - start,
{
    if start < 0 || start >= src.len() {
        None
    } else if src[start] == 10u8 {
        Some(start)
    } else {
        first_newline_from(src, start + 1)
    }
}

/// The scan of the first `k` lines of `src` for runs of blank lines: the number of blank
/// lines just passed, where the last run started, and the ranges found so far (from the end
/// of the first blank line of a run of two or more to the next line with content).
pub open spec fn collect_state(src: Seq<u8>, k: int) -> (nat, int, Seq<(int, int)>)
    decreases k,
{
    if k <= 0 {
        (0, 0, Seq::empty())
    } else {
        let prev = collect_state(src, k - 1);
        let i = k - 1;
        let offset = line_ranges(src)[i].0;
        if is_empty_line(line_text(src, i)) {
            (prev.0 + 1, if prev.0 == 0 {
                offset
            } else {
                prev.1
            }, prev.2)
        } else {
            let out = if prev.0 >= 2 {
                let first_empty_end = match first_newline_from(src, prev.1) {
                    Some(p) => p + 1,
                    None => prev.1,
                };
                if first_empty_end < offset {
                    prev.2.push((first_empty_end, offset))
                } else {
                    prev.2
                }
            } else {
                prev.2
            };
            (0, prev.1, out)
        }
    }
}

/// Find the position of the first newline at or after the given position.
pub fn find_first_newline_after(source: &[u8], start: usize) -> (r: Option<usize>)
    requires
        start <= source@.len(),
    ensures
        match (r, first_newline_from(source@, start as int)) {
            (None, None) => true,
            (Some(a), Some(b)) => a == b,
            _ => false,
        },
        match r {
            Some(p) => p < source@.len(),
            None => true,
        },
{
    let mut pos = start;
    while pos < source.len()
        invariant
            start <= pos <= source@.len(),
            first_newline_from(source@, start as int) == first_newline_from(source@, pos as int),
        decreases source@.len() - pos,
    {
        if source[pos] == 10u8 {
            return Some(pos);
        }
        pos = pos + 1;
    }
    None
}

/// Collect ranges of extra blank lines: for each run of two or more blank lines followed by
/// a line with content, the range from the end of the run's first line to that line.
pub fn collect_edit_ranges(source: &[u8]) -> (r: Vec<(usize, usize, String)>)
    requires
        source@.len() <= isize::MAX,
    ensures
        r@.len() == collect_state(source@, line_ranges(source@).len() as int).2.len(),
        forall|j: int|
            0 <= j < r@.len() ==> {
                let o = collect_state(source@, line_ranges(source@).len() as int).2[j];
                &&& (#[trigger] r@[j]).0 == o.0
                &&& r@[j].1 == o.1
                &&& r@[j].2@ == "Extra blank line detected."@
            },
{
    let index = LineIndex::from_source(source);
    proof {
        index.lemma_lines();
        crate::locator::lemma_line_ranges(source@);
    }
    let count = index.line_count();
    let mut ranges: Vec<(usize, usize, String)> = Vec::new();
    let mut consecutive_empty: usize = 0;
    let mut empty_start: usize = 0;
    let mut i: usize = 0;
    while i < count
        invariant
            index.wf(),
            index.source() == source@,
            count == line_ranges(source@).len(),
            0 <= i <= count,
            consecutive_empty <= i,
            source@.len() <= isize::MAX,
            empty_start <= source@.len(),
            consecutive_empty == collect_state(source@, i as int).0,
            empty_start == collect_state(source@, i as int).1,
            ranges@.len() == collect_state(source@, i as int).2.len(),
            forall|j: int|
                0 <= j < ranges@.len() ==> {
                    let o = collect_state(source@, i as int).2[j];
                    &&& (#[trigger] ranges@[j]).0 == o.0
                    &&& ranges@[j].1 == o.1
                    &&& ranges@[j].2@ == "Extra blank line detected."@
                },
        decreases count - i,
    {
        let line = index.lines()[i];
        proof {
            index.lemma_lines();
            crate::locator::lemma_line_ranges(source@);
            assert(crate::locator::is_line_of(source@, line));
        }
        let offset = line.start;
        if is_empty_text(line.text) {
            if consecutive_empty == 0 {
                empty_start = offset;
            }
            consecutive_empty = consecutive_empty + 1;
        } else {
            if consecutive_empty >= 2 {
                let first_empty_end = match find_first_newline_after(source, empty_start) {
                    Some(pos) => pos + 1,
                    None => empty_start,
                };
                if first_empty_end < offset {
                    let ghost before = ranges@;
                    ranges.push((first_empty_end, offset, String::from_str("Extra blank line detected.")));
                    assert(forall|j: int| 0 <= j < before.len() ==> ranges@[j] == before[j]);
                }
            }
            consecutive_empty = 0;
        }
        i = i + 1;
    }
    ranges
}

} // verus!
