//! Configuration for Layout/BeginEndAlignment.
use crate::diagnostic::Severity;
use vstd::prelude::*;

verus! {

/// Configuration for Layout/BeginEndAlignment.
#[derive(Debug, Clone, Copy, PartialEq, Eq, Structural)]
pub struct BeginEndAlignmentConfig {
    /// Whether the cop runs.
    pub enabled: bool,
    /// The severity of its diagnostics.
    pub severity: Severity,
    pub enforced_style_align_with: EnforcedStyleAlignWith,
}

impl BeginEndAlignmentConfig {
    /// The configuration that applies when none is given.
    pub open spec fn spec_default() -> BeginEndAlignmentConfig {
        BeginEndAlignmentConfig { enabled: true, severity: Severity::Convention, enforced_style_align_with: EnforcedStyleAlignWith::StartOfLine }
    }
}

impl Default for BeginEndAlignmentConfig {
    fn default() -> (c: BeginEndAlignmentConfig)
        ensures
            c == BeginEndAlignmentConfig::spec_default(),
    {
        BeginEndAlignmentConfig { enabled: true, severity: Severity::Convention, enforced_style_align_with: EnforcedStyleAlignWith::StartOfLine }
    }
}

/// Alignment style for Layout/BeginEndAlignment.
#[derive(Debug, Clone, Copy, PartialEq, Eq, Structural)]
pub enum EnforcedStyleAlignWith {
    StartOfLine,
    Begin,
}

impl Default for EnforcedStyleAlignWith {
    fn default() -> (s: EnforcedStyleAlignWith)
        ensures
            s == EnforcedStyleAlignWith::StartOfLine,
    {
        EnforcedStyleAlignWith::StartOfLine
    }
}

} // verus!
