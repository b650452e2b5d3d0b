//! Configuration for Layout/LeadingEmptyLines.
use crate::diagnostic::Severity;
use vstd::prelude::*;

verus! {

/// Configuration for Layout/LeadingEmptyLines.
#[derive(Debug, Clone, Copy, PartialEq, Eq, Structural)]
pub struct LeadingEmptyLinesConfig {
    /// Whether the cop runs.
    pub enabled: bool,
    /// The severity of its diagnostics.
    pub severity: Severity,
}

impl LeadingEmptyLinesConfig {
    /// The configuration that applies when none is given.
    pub open spec fn spec_default() -> LeadingEmptyLinesConfig {
        LeadingEmptyLinesConfig { enabled: true, severity: Severity::Convention }
    }
}

impl Default for LeadingEmptyLinesConfig {
    fn default() -> (c: LeadingEmptyLinesConfig)
        ensures
            c == LeadingEmptyLinesConfig::spec_default(),
    {
        LeadingEmptyLinesConfig { enabled: true, severity: Severity::Convention }
    }
}

} // verus!
