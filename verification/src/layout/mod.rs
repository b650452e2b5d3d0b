//! Layout checks on the raw bytes of a source, without a syntax tree.
pub mod rules;

use crate::layout::rules::trailing_whitespace::{check_source, trailing_whitespace_findings};
use crate::locator::line_ranges;
use vstd::prelude::*;

verus! {

/// A diagnostic message for a layout violation.
#[derive(Debug, Clone, PartialEq, Eq)]
pub struct Diagnostic {
    /// The rule name (e.g., "Layout/TrailingWhitespace")
    pub rule: &'static str,
    /// The message describing the violation
    pub message: String,
    /// Start byte offset in the source
    pub start: usize,
    /// End byte offset in the source
    pub end: usize,
    /// Line number (1-indexed)
    pub line: usize,
    /// Column number (1-indexed)
    pub column: usize,
}

/// What a diagnostic says, as mathematical values.
pub struct Finding {
    pub rule: Seq<char>,
    pub message: Seq<char>,
    pub start: int,
    pub end: int,
    pub line: int,
    pub column: int,
}

impl Diagnostic {
    /// What the diagnostic says.
    pub open spec fn finding(&self) -> Finding {
        Finding {
            rule: self.rule@,
            message: self.message@,
            start: self.start as int,
            end: self.end as int,
            line: self.line as int,
            column: self.column as int,
        }
    }
}

/// What a list of diagnostics says.
pub open spec fn findings(ds: Seq<Diagnostic>) -> Seq<Finding> {
    ds.map_values(|d: Diagnostic| d.finding())
}

/// Check a Ruby source file for layout violations.
pub fn check(source: &[u8]) -> (v: Vec<Diagnostic>)
    requires
        source@.len() <= isize::MAX,
    ensures
        findings(v@) == trailing_whitespace_findings(source@, line_ranges(source@).len() as int),
{
    check_source(source)
}

} // verus!
