//! Configuration for Layout/DefEndAlignment.
use crate::diagnostic::Severity;
use vstd::prelude::*;

verus! {

/// Configuration for Layout/DefEndAlignment.
#[derive(Debug, Clone, Copy, PartialEq, Eq, Structural)]
pub struct DefEndAlignmentConfig {
    /// Whether the cop runs.
    pub enabled: bool,
    /// The severity of its diagnostics.
    pub severity: Severity,
    pub enforced_style_align_with: EnforcedStyleAlignWith,
}

impl DefEndAlignmentConfig {
    /// The configuration that applies when none is given.
    pub open spec fn spec_default() -> DefEndAlignmentConfig {
        DefEndAlignmentConfig { enabled: true, severity: Severity::Warning, enforced_style_align_with: EnforcedStyleAlignWith::StartOfLine }
    }
}

impl Default for DefEndAlignmentConfig {
    fn default() -> (c: DefEndAlignmentConfig)
        ensures
            c == DefEndAlignmentConfig::spec_default(),
    {
        DefEndAlignmentConfig { enabled: true, severity: Severity::Warning, enforced_style_align_with: EnforcedStyleAlignWith::StartOfLine }
    }
}

/// Alignment style for Layout/DefEndAlignment.
#[derive(Debug, Clone, Copy, PartialEq, Eq, Structural)]
pub enum EnforcedStyleAlignWith {
    Def,
    StartOfLine,
}

impl Default for EnforcedStyleAlignWith {
    fn default() -> (s: EnforcedStyleAlignWith)
        ensures
            s == EnforcedStyleAlignWith::StartOfLine,
    {
        EnforcedStyleAlignWith::StartOfLine
    }
}

} // verus!
