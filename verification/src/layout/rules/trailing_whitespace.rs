//! Layout/TrailingWhitespace on raw bytes: spaces, tabs and carriage returns at the end of
//! a line.
use crate::layout::{findings, Diagnostic, Finding};
use crate::locator::{line_ranges, line_text, LineIndex};
use vstd::prelude::*;
use vstd::string::StringExecFns;

verus! {

/// A space, a tab or a carriage return.
pub open spec fn is_trailing_byte(b: u8) -> bool {
    b == 32u8 || b == 9u8 || b == 13u8
}

/// The number of spaces, tabs and carriage returns at the end of `t`.
pub open spec fn trailing_count(t: Seq<u8>) -> nat
    decreases t.len(),
{
    if t.len() == 0 || !is_trailing_byte(t.last()) {
        0
    } else {
        trailing_count(t.drop_last()) + 1
    }
}

/// Where the trailing whitespace of a line starts, if it has any.
pub open spec fn spec_find_trailing_whitespace(t: Seq<u8>) -> Option<int> {
    if trailing_count(t) > 0 {
        Some(t.len() - trailing_count(t))
    } else {
        None
    }
}

/// The diagnostics for the first `k` lines of `src`.
pub open spec fn trailing_whitespace_findings(src: Seq<u8>, k: int) -> Seq<Finding>
    decreases k,
{
    if k <= 0 {
        Seq::empty()
    } else {
        let i = k - 1;
        let line = line_text(src, i);
        let start = line_ranges(src)[i].0;
        trailing_whitespace_findings(src, k - 1) + match spec_find_trailing_whitespace(line) {
            Some(ts) => seq![
                Finding {
                    rule: "Layout/TrailingWhitespace"@,
                    message: "Trailing whitespace detected."@,
                    start: start + ts,
                    end: start + line.len(),
                    line: i + 1,
                    column: ts + 1,
                },
            ],
            None => Seq::empty(),
        }
    }
}

/// Find the start position of trailing whitespace in a line.
/// Returns `None` if there is no trailing whitespace.
pub fn find_trailing_whitespace(line: &[u8]) -> (r: Option<usize>)
    ensures
        match (r, spec_find_trailing_whitespace(line@)) {
            (None, None) => true,
            (Some(a), Some(b)) => a == b,
            _ => false,
        },
{
    let mut count: usize = 0;
    assert(line@.subrange(0, line@.len() as int) =~= line@);
    while count < line.len() && (line[line.len() - 1 - count] == 32u8 || line[line.len() - 1
        - count] == 9u8 || line[line.len() - 1 - count] == 13u8)
        invariant
            0 <= count <= line@.len(),
            trailing_count(line@) == count + trailing_count(line@.subrange(0, line@.len() - count)),
        decreases line@.len() - count,
    {
        let ghost t = line@.subrange(0, line@.len() - count);
        assert(t.drop_last() =~= line@.subrange(0, line@.len() - count - 1));
        count = count + 1;
    }
    proof {
        let t = line@.subrange(0, line@.len() - count);
        if count < line@.len() {
            assert(t.last() == line@[line@.len() - 1 - count]);
        }
    }
    if count > 0 {
        Some(line.len() - count)
    } else {
        None
    }
}

/// Check for trailing whitespace in the source, line by line.
pub fn check_source(source: &[u8]) -> (v: Vec<Diagnostic>)
    requires
        source@.len() <= isize::MAX,
    ensures
        findings(v@) == trailing_whitespace_findings(source@, line_ranges(source@).len() as int),
{
    let index = LineIndex::from_source(source);
    proof {
        index.lemma_lines();
        crate::locator::lemma_line_ranges(source@);
    }
    let count = index.line_count();
    let mut v: Vec<Diagnostic> = Vec::new();
    let mut i: usize = 0;
    while i < count
        invariant
            index.wf(),
            index.source() == source@,
            source@.len() <= isize::MAX,
            count == line_ranges(source@).len(),
            0 <= i <= count,
            findings(v@) == trailing_whitespace_findings(source@, i as int),
        decreases count - i,
    {
        let line = index.lines()[i];
        proof {
            index.lemma_lines();
            crate::locator::lemma_line_ranges(source@);
            assert(crate::locator::is_line_of(source@, line));
        }
        let ghost before = v@;
        match find_trailing_whitespace(line.text) {
            Some(trailing_start) => {
                proof {
                    assert(line.text@.len() == line.end - line.start);
                }
                let d = Diagnostic {
                    rule: "Layout/TrailingWhitespace",
                    message: String::from_str("Trailing whitespace detected."),
                    start: line.start + trailing_start,
                    end: line.start + line.text.len(),
                    line: i + 1,
                    column: trailing_start + 1,
                };
                v.push(d);
                assert(findings(v@) =~= findings(before).push(d.finding()));
            },
            None => {
                assert(findings(v@) =~= findings(before) + Seq::<Finding>::empty());
            },
        }
        i = i + 1;
    }
    v
}

} // verus!
