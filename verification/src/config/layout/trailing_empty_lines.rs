//! Configuration for Layout/TrailingEmptyLines.
use crate::diagnostic::Severity;
use vstd::prelude::*;

verus! {

/// Configuration for Layout/TrailingEmptyLines.
#[derive(Debug, Clone, Copy, PartialEq, Eq, Structural)]
pub struct TrailingEmptyLinesConfig {
    /// Whether the cop runs.
    pub enabled: bool,
    /// The severity of its diagnostics.
    pub severity: Severity,
    pub enforced_style: EnforcedStyle,
}

impl TrailingEmptyLinesConfig {
    /// The configuration that applies when none is given.
    pub open spec fn spec_default() -> TrailingEmptyLinesConfig {
        TrailingEmptyLinesConfig { enabled: true, severity: Severity::Convention, enforced_style: EnforcedStyle::FinalNewline }
    }
}

impl Default for TrailingEmptyLinesConfig {
    fn default() -> (c: TrailingEmptyLinesConfig)
        ensures
            c == TrailingEmptyLinesConfig::spec_default(),
    {
        TrailingEmptyLinesConfig { enabled: true, severity: Severity::Convention, enforced_style: EnforcedStyle::FinalNewline }
    }
}

/// Enforced style for trailing empty lines.
#[derive(Debug, Clone, Copy, PartialEq, Eq, Structural)]
pub enum EnforcedStyle {
    FinalBlankLine,
    FinalNewline,
}

impl Default for EnforcedStyle {
    fn default() -> (s: EnforcedStyle)
        ensures
            s == EnforcedStyle::FinalNewline,
    {
        EnforcedStyle::FinalNewline
    }
}

} // verus!
