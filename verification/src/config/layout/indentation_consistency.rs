//! Configuration for Layout/IndentationConsistency.
use crate::diagnostic::Severity;
use vstd::prelude::*;

verus! {

/// Configuration for Layout/IndentationConsistency.
#[derive(Debug, Clone, Copy, PartialEq, Eq, Structural)]
pub struct IndentationConsistencyConfig {
    /// Whether the cop runs.
    pub enabled: bool,
    /// The severity of its diagnostics.
    pub severity: Severity,
    pub enforced_style: EnforcedStyle,
}

impl IndentationConsistencyConfig {
    /// The configuration that applies when none is given.
    pub open spec fn spec_default() -> IndentationConsistencyConfig {
        IndentationConsistencyConfig { enabled: true, severity: Severity::Convention, enforced_style: EnforcedStyle::Normal }
    }
}

impl Default for IndentationConsistencyConfig {
    fn default() -> (c: IndentationConsistencyConfig)
        ensures
            c == IndentationConsistencyConfig::spec_default(),
    {
        IndentationConsistencyConfig { enabled: true, severity: Severity::Convention, enforced_style: EnforcedStyle::Normal }
    }
}

/// Indentation style for Layout/IndentationConsistency.
#[derive(Debug, Clone, Copy, PartialEq, Eq, Structural)]
pub enum EnforcedStyle {
    IndentedInternalMethods,
    Normal,
}

impl Default for EnforcedStyle {
    fn default() -> (s: EnforcedStyle)
        ensures
            s == EnforcedStyle::Normal,
    {
        EnforcedStyle::Normal
    }
}

} // verus!
