//! Alignment of several nodes on a common column.
use crate::checker::{report_model, Checker};
use crate::diagnostic::{safe_fix_model, DiagnosticModel, Edit, Fix, FixModel, Severity};
use crate::locator::{line_of, line_ranges, line_text};
use crate::rule::RuleId;
use crate::rules::layout::end_keyword_alignment::{col, line_indent, line_indent_at};
use crate::text::{repeat_str, spec_repeat};
use vstd::prelude::*;
use vstd::string::StringExecFns;

verus! {

/// Timings, in microseconds, of the phases of alignment checks.
#[derive(Debug, Clone, Copy)]
pub struct AlignmentProfile {
    pub offsets_us: u128,
    pub batch_us: u128,
    pub iter_us: u128,
    pub fix_creation_us: u128,
    pub report_us: u128,
    pub conflict_check_us: u128,
}

impl Default for AlignmentProfile {
    fn default() -> (p: AlignmentProfile)
        ensures
            p.offsets_us == 0 && p.batch_us == 0 && p.iter_us == 0 && p.fix_creation_us == 0
                && p.report_us == 0 && p.conflict_check_us == 0,
    {
        AlignmentProfile {
            offsets_us: 0,
            batch_us: 0,
            iter_us: 0,
            fix_creation_us: 0,
            report_us: 0,
            conflict_check_us: 0,
        }
    }
}

/// The 1-based line number of offset `o` of `src`.
pub open spec fn line_no(src: Seq<u8>, o: int) -> int {
    line_of(line_ranges(src), o) + 1
}

/// The misaligned locations among the first `k` of `locs`, each with the number of columns
/// by which it must move right (positive) or left (negative) to reach column `base`
/// (1-based): a location counts when it starts a line after the line of the location before
/// it, and nothing but spaces and tabs stand before it on its line.
pub open spec fn misaligned(src: Seq<u8>, base: int, locs: Seq<(usize, usize)>, k: int) -> Seq<
    (usize, usize, int),
>
    decreases k,
{
    if k <= 0 {
        Seq::empty()
    } else {
        let (s, e) = locs[k - 1];
        let prev_line = if k - 1 == 0 {
            0
        } else {
            line_no(src, locs[k - 2].0 as int)
        };
        let delta = base - (col(src, s as int) + 1);
        misaligned(src, base, locs, k - 1) + if prev_line < line_no(src, s as int) && col(
            src,
            s as int,
        ) == line_indent(src, s as int) && delta != 0 {
            seq![(s, e, delta)]
        } else {
            Seq::empty()
        }
    }
}

/// The fix that moves the line holding `start` by `delta` columns: spaces inserted at the
/// start of the line, or up to `-delta` of its leading bytes deleted.
pub open spec fn realign_fix(src: Seq<u8>, start: int, delta: int) -> Option<FixModel> {
    let ls = start - col(src, start);
    if delta > 0 {
        safe_fix_model(ls, ls, spec_repeat(" "@, delta as nat))
    } else {
        safe_fix_model(
            ls,
            ls + if -delta < start - ls {
                -delta
            } else {
                start - ls
            },
            Seq::empty(),
        )
    }
}

/// The diagnostics for the misaligned locations `reps[k..]`, `last` being the end of the
/// last location that got a fix: a location that starts before it gets no fix, so that no
/// two fixes rewrite the same region.
pub open spec fn alignment_reports(
    src: Seq<u8>,
    rule_id: RuleId,
    reps: Seq<(usize, usize, int)>,
    k: int,
    last: Option<usize>,
) -> Seq<DiagnosticModel>
    decreases reps.len() - k,
{
    if k < 0 || k >= reps.len() {
        Seq::empty()
    } else {
        let (s, e, d) = reps[k];
        let overlapping = match last {
            Some(pe) => s < pe,
            None => false,
        };
        if overlapping {
            seq![report_model(src, rule_id, Seq::empty(), Severity::Convention, s as int, e as int, None)]
                + alignment_reports(src, rule_id, reps, k + 1, last)
        } else {
            seq![
                report_model(
                    src,
                    rule_id,
                    Seq::empty(),
                    Severity::Convention,
                    s as int,
                    e as int,
                    realign_fix(src, s as int, d),
                ),
            ] + alignment_reports(src, rule_id, reps, k + 1, Some(e))
        }
    }
}

/// What `check_alignment` reports for `locs` against `base_column`, or against the column of
/// the first location when none is given.
pub open spec fn alignment_findings(
    src: Seq<u8>,
    locs: Seq<(usize, usize)>,
    base_column: Option<usize>,
    rule_id: RuleId,
) -> Seq<DiagnosticModel> {
    if locs.len() <= 1 {
        Seq::empty()
    } else {
        let base = match base_column {
            Some(c) => c as int,
            None => col(src, locs[0].0 as int) + 1,
        };
        alignment_reports(src, rule_id, misaligned(src, base, locs, locs.len() as int), 0, None)
    }
}

/// Check alignment of given locations against a base column.
pub fn check_alignment(
    locs: Vec<(usize, usize)>,
    base_column: Option<usize>,
    rule_id: RuleId,
    checker: &mut Checker,
)
    requires
        old(checker).wf(),
        forall|k: int| 0 <= k < locs@.len() ==> (#[trigger] locs@[k]).0 <= old(checker).spec_source().len(),
    ensures
        final(checker).wf(),
        final(checker).spec_source() == old(checker).spec_source(),
        final(checker).spec_config() == old(checker).spec_config(),
        final(checker).ignored_nodes() == old(checker).ignored_nodes(),
        final(checker).reported() == old(checker).reported() + alignment_findings(
            old(checker).spec_source(),
            locs@,
            base_column,
            rule_id,
        ),
{
    let ghost src = checker.spec_source();
    if locs.len() <= 1 {
        assert(checker.reported() =~= checker.reported() + Seq::<DiagnosticModel>::empty());
        return;
    }
    proof {
        checker.lemma_source_len();
    }
    let base: usize = match base_column {
        Some(c) => c,
        None => {
            let idx = checker.line_index();
            proof {
                crate::locator::lemma_split_line_of(src, idx@, locs@[0].0 as int);
            }
            idx.column(locs[0].0) + 1
        },
    };
    assert(base == (match base_column {
        Some(c) => c as int,
        None => col(src, locs@[0].0 as int) + 1,
    }));
    // The misaligned locations, with the number of columns to move them by.
    let mut pending: Vec<(usize, usize, bool, usize)> = Vec::new();
    let mut prev_line: usize = 0;
    let mut i: usize = 0;
    while i < locs.len()
        invariant
            checker.wf(),
            checker.spec_source() == src,
            0 <= i <= locs@.len(),
            forall|k: int| 0 <= k < locs@.len() ==> (#[trigger] locs@[k]).0 <= src.len(),
            src.len() <= isize::MAX,
            prev_line == (if i == 0 {
                0
            } else {
                line_no(src, locs@[i - 1].0 as int)
            }),
            pending@.len() == misaligned(src, base as int, locs@, i as int).len(),
            forall|k: int|
                0 <= k < pending@.len() ==> {
                    let p = #[trigger] pending@[k];
                    let m = misaligned(src, base as int, locs@, i as int)[k];
                    &&& p.0 == m.0
                    &&& p.1 == m.1
                    &&& (if p.2 {
                        m.2 == p.3 as int
                    } else {
                        m.2 == -(p.3 as int)
                    })
                    &&& p.3 > 0
                    &&& p.0 <= src.len()
                },
        decreases locs@.len() - i,
    {
        let (s, e) = locs[i];
        let idx = checker.line_index();
        proof {
            crate::locator::lemma_split_line_of(src, idx@, s as int);
        }
        let curr_line = idx.line_number(s);
        let col_start = idx.column(s) + 1;
        let indent = line_indent_at(checker, s);
        let ghost before = misaligned(src, base as int, locs@, i as int);
        if prev_line < curr_line && col_start - 1 == indent {
            if base > col_start {
                pending.push((s, e, true, base - col_start));
            } else if base < col_start {
                pending.push((s, e, false, col_start - base));
            }
        }
        proof {
            assert(locs@[i as int] == (s, e));
            let after = misaligned(src, base as int, locs@, i + 1);
            if i > 0 {
                assert(prev_line == line_no(src, locs@[i - 1].0 as int));
            }
            assert(pending@.len() == after.len());
            assert forall|k: int| 0 <= k < pending@.len() implies {
                let p = #[trigger] pending@[k];
                let m = after[k];
                &&& p.0 == m.0
                &&& p.1 == m.1
                &&& (if p.2 {
                    m.2 == p.3 as int
                } else {
                    m.2 == -(p.3 as int)
                })
                &&& p.3 > 0
                &&& p.0 <= src.len()
            } by {
                if k < before.len() {
                    assert(after[k] == before[k]);
                }
            }
        }
        prev_line = curr_line;
        i = i + 1;
    }
    let ghost reps = misaligned(src, base as int, locs@, locs@.len() as int);
    let ghost start_reported = checker.reported();
    let mut last_applied_end: Option<usize> = None;
    let mut j: usize = 0;
    while j < pending.len()
        invariant
            checker.wf(),
            checker.spec_source() == src,
            checker.spec_config() == old(checker).spec_config(),
            checker.ignored_nodes() == old(checker).ignored_nodes(),
            src.len() <= isize::MAX,
            0 <= j <= pending@.len(),
            pending@.len() == reps.len(),
            forall|k: int|
                0 <= k < pending@.len() ==> {
                    let p = #[trigger] pending@[k];
                    let m = reps[k];
                    &&& p.0 == m.0
                    &&& p.1 == m.1
                    &&& (if p.2 {
                        m.2 == p.3 as int
                    } else {
                        m.2 == -(p.3 as int)
                    })
                    &&& p.3 > 0
                    &&& p.0 <= src.len()
                },
            start_reported + alignment_reports(src, rule_id, reps, 0, None) == checker.reported()
                + alignment_reports(src, rule_id, reps, j as int, last_applied_end),
        decreases pending@.len() - j,
    {
        let (start, end, insert, n) = pending[j];
        let ghost rest = alignment_reports(src, rule_id, reps, j + 1, last_applied_end);
        let overlapping = match last_applied_end {
            Some(prev_end) => start < prev_end,
            None => false,
        };
        if overlapping {
            let ghost before = checker.reported();
            checker.report(rule_id, String::new(), Severity::Convention, start, end, None);
            proof {
                assert(alignment_reports(src, rule_id, reps, j as int, last_applied_end) == seq![
                    report_model(src, rule_id, Seq::empty(), Severity::Convention, start as int, end as int, None),
                ] + rest);
                assert(checker.reported() + rest =~= before + (seq![
                    report_model(src, rule_id, Seq::empty(), Severity::Convention, start as int, end as int, None),
                ] + rest));
            }
        } else {
            let idx = checker.line_index();
            proof {
                crate::locator::lemma_split_line_of(src, idx@, start as int);
            }
            let line_start_offset = idx.line_start_offset(start);
            assert(line_start_offset == start - col(src, start as int));
            let fix = if insert {
                let spaces = repeat_str(" ", n);
                let ghost content = spaces@;
                let f = Fix::safe(vec![Edit::insertion(line_start_offset, spaces)]);
                proof {
                    assert(crate::diagnostic::edit_models(f.edits@) =~= seq![
                        crate::diagnostic::EditModel { start: line_start_offset as int, end: line_start_offset as int, content },
                    ]);
                }
                f
            } else {
                let room = start - line_start_offset;
                let endpos = line_start_offset + if n < room {
                    n
                } else {
                    room
                };
                let f = Fix::safe(vec![Edit::deletion(line_start_offset, endpos)]);
                proof {
                    assert(crate::diagnostic::edit_models(f.edits@) =~= seq![
                        crate::diagnostic::EditModel { start: line_start_offset as int, end: endpos as int, content: Seq::empty() },
                    ]);
                }
                f
            };
            let ghost fm = fix@;
            let ghost before = checker.reported();
            let ghost rest2 = alignment_reports(src, rule_id, reps, j + 1, Some(end));
            checker.report(rule_id, String::new(), Severity::Convention, start, end, Some(fix));
            proof {
                assert(Some(fm) == realign_fix(src, start as int, reps[j as int].2));
                assert(alignment_reports(src, rule_id, reps, j as int, last_applied_end) == seq![
                    report_model(src, rule_id, Seq::empty(), Severity::Convention, start as int, end as int, Some(fm)),
                ] + rest2);
                assert(checker.reported() + rest2 =~= before + (seq![
                    report_model(src, rule_id, Seq::empty(), Severity::Convention, start as int, end as int, Some(fm)),
                ] + rest2));
            }
            last_applied_end = Some(end);
        }
        j = j + 1;
    }
    assert(alignment_reports(src, rule_id, reps, j as int, last_applied_end) =~= Seq::<
        DiagnosticModel,
    >::empty());
    assert(checker.reported() =~= start_reported + alignment_reports(src, rule_id, reps, 0, None));
}

} // verus!
