//! Configuration for Layout/EndAlignment.
use crate::diagnostic::Severity;
use vstd::prelude::*;

verus! {

/// Configuration for Layout/EndAlignment.
#[derive(Debug, Clone, Copy, PartialEq, Eq, Structural)]
pub struct EndAlignmentConfig {
    /// Whether the cop runs.
    pub enabled: bool,
    /// The severity of its diagnostics.
    pub severity: Severity,
    pub enforced_style_align_with: EnforcedStyleAlignWith,
}

impl EndAlignmentConfig {
    /// The configuration that applies when none is given.
    pub open spec fn spec_default() -> EndAlignmentConfig {
        EndAlignmentConfig { enabled: true, severity: Severity::Warning, enforced_style_align_with: EnforcedStyleAlignWith::Keyword }
    }
}

impl Default for EndAlignmentConfig {
    fn default() -> (c: EndAlignmentConfig)
        ensures
            c == EndAlignmentConfig::spec_default(),
    {
        EndAlignmentConfig { enabled: true, severity: Severity::Warning, enforced_style_align_with: EnforcedStyleAlignWith::Keyword }
    }
}

/// Alignment style for Layout/EndAlignment.
#[derive(Debug, Clone, Copy, PartialEq, Eq, Structural)]
pub enum EnforcedStyleAlignWith {
    Keyword,
    StartOfLine,
    Variable,
}

impl Default for EnforcedStyleAlignWith {
    fn default() -> (s: EnforcedStyleAlignWith)
        ensures
            s == EnforcedStyleAlignWith::Keyword,
    {
        EnforcedStyleAlignWith::Keyword
    }
}

} // verus!
