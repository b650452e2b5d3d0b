//! Reading severities as RuboCop's configuration writes them.
use crate::diagnostic::Severity;
use crate::text::{lowered, str_eq, to_lowercase};
use vstd::prelude::*;

verus! {

/// The severity that a name stands for, in any case, with its one-letter short form; any
/// other name stands for a warning.
pub open spec fn spec_parse_severity(s: Seq<char>) -> Severity {
    let l = lowered(s);
    if l == "refactor"@ || l == "r"@ {
        Severity::Refactor
    } else if l == "convention"@ || l == "c"@ {
        Severity::Convention
    } else if l == "warning"@ || l == "w"@ {
        Severity::Warning
    } else if l == "error"@ || l == "e"@ {
        Severity::Error
    } else if l == "fatal"@ || l == "f"@ {
        Severity::Fatal
    } else {
        Severity::Warning
    }
}

/// Parse severity from string.
pub fn parse_severity(s: &str) -> (r: Severity)
    ensures
        r == spec_parse_severity(s@),
{
    let l = to_lowercase(s);
    let l = l.as_str();
    if str_eq(l, "refactor") || str_eq(l, "r") {
        Severity::Refactor
    } else if str_eq(l, "convention") || str_eq(l, "c") {
        Severity::Convention
    } else if str_eq(l, "warning") || str_eq(l, "w") {
        Severity::Warning
    } else if str_eq(l, "error") || str_eq(l, "e") {
        Severity::Error
    } else if str_eq(l, "fatal") || str_eq(l, "f") {
        Severity::Fatal
    } else {
        Severity::Warning
    }
}

} // verus!
