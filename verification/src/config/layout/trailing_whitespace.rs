//! Configuration for Layout/TrailingWhitespace.
use crate::diagnostic::Severity;
use vstd::prelude::*;

verus! {

/// Configuration for Layout/TrailingWhitespace.
#[derive(Debug, Clone, Copy, PartialEq, Eq, Structural)]
pub struct TrailingWhitespaceConfig {
    /// Whether the cop runs.
    pub enabled: bool,
    /// The severity of its diagnostics.
    pub severity: Severity,
}

impl TrailingWhitespaceConfig {
    /// The configuration that applies when none is given.
    pub open spec fn spec_default() -> TrailingWhitespaceConfig {
        TrailingWhitespaceConfig { enabled: true, severity: Severity::Convention }
    }
}

impl Default for TrailingWhitespaceConfig {
    fn default() -> (c: TrailingWhitespaceConfig)
        ensures
            c == TrailingWhitespaceConfig::spec_default(),
    {
        TrailingWhitespaceConfig { enabled: true, severity: Severity::Convention }
    }
}

} // verus!
