//! Configuration for Layout/EmptyLines.
use crate::diagnostic::Severity;
use vstd::prelude::*;

verus! {

/// Configuration for Layout/EmptyLines.
#[derive(Debug, Clone, Copy, PartialEq, Eq, Structural)]
pub struct EmptyLinesConfig {
    /// Whether the cop runs.
    pub enabled: bool,
    /// The severity of its diagnostics.
    pub severity: Severity,
}

impl EmptyLinesConfig {
    /// The configuration that applies when none is given.
    pub open spec fn spec_default() -> EmptyLinesConfig {
        EmptyLinesConfig { enabled: true, severity: Severity::Convention }
    }
}

impl Default for EmptyLinesConfig {
    fn default() -> (c: EmptyLinesConfig)
        ensures
            c == EmptyLinesConfig::spec_default(),
    {
        EmptyLinesConfig { enabled: true, severity: Severity::Convention }
    }
}

} // verus!
