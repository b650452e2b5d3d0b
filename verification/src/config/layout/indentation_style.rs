//! Configuration for Layout/IndentationStyle.
use crate::diagnostic::Severity;
use vstd::prelude::*;

verus! {

/// Configuration for Layout/IndentationStyle.
#[derive(Debug, Clone, Copy, PartialEq, Eq, Structural)]
pub struct IndentationStyleConfig {
    /// Whether the cop runs.
    pub enabled: bool,
    /// The severity of its diagnostics.
    pub severity: Severity,
    pub enforced_style: EnforcedStyle,
    pub indentation_width: usize,
}

impl IndentationStyleConfig {
    /// The configuration that applies when none is given.
    pub open spec fn spec_default() -> IndentationStyleConfig {
        IndentationStyleConfig { enabled: true, severity: Severity::Convention, enforced_style: EnforcedStyle::Spaces, indentation_width: 2 }
    }
}

impl Default for IndentationStyleConfig {
    fn default() -> (c: IndentationStyleConfig)
        ensures
            c == IndentationStyleConfig::spec_default(),
    {
        IndentationStyleConfig { enabled: true, severity: Severity::Convention, enforced_style: EnforcedStyle::Spaces, indentation_width: 2 }
    }
}

/// Enforced style for indentation.
#[derive(Debug, Clone, Copy, PartialEq, Eq, Structural)]
pub enum EnforcedStyle {
    Spaces,
    Tabs,
}

impl Default for EnforcedStyle {
    fn default() -> (s: EnforcedStyle)
        ensures
            s == EnforcedStyle::Spaces,
    {
        EnforcedStyle::Spaces
    }
}

} // verus!
