//! Configuration for Layout/AccessModifierIndentation.
use crate::diagnostic::Severity;
use vstd::prelude::*;

verus! {

/// Configuration for Layout/AccessModifierIndentation.
#[derive(Debug, Clone, Copy, PartialEq, Eq, Structural)]
pub struct AccessModifierIndentationConfig {
    /// Whether the cop runs.
    pub enabled: bool,
    /// The severity of its diagnostics.
    pub severity: Severity,
    pub enforced_style: EnforcedStyle,
    pub indentation_width: Option<usize>,
}

impl AccessModifierIndentationConfig {
    /// The configuration that applies when none is given.
    pub open spec fn spec_default() -> AccessModifierIndentationConfig {
        AccessModifierIndentationConfig { enabled: true, severity: Severity::Convention, enforced_style: EnforcedStyle::Indent, indentation_width: None }
    }
}

impl Default for AccessModifierIndentationConfig {
    fn default() -> (c: AccessModifierIndentationConfig)
        ensures
            c == AccessModifierIndentationConfig::spec_default(),
    {
        AccessModifierIndentationConfig { enabled: true, severity: Severity::Convention, enforced_style: EnforcedStyle::Indent, indentation_width: None }
    }
}

/// Indentation style for Layout/AccessModifierIndentation.
#[derive(Debug, Clone, Copy, PartialEq, Eq, Structural)]
pub enum EnforcedStyle {
    Indent,
    Outdent,
}

impl Default for EnforcedStyle {
    fn default() -> (s: EnforcedStyle)
        ensures
            s == EnforcedStyle::Indent,
    {
        EnforcedStyle::Indent
    }
}

} // verus!
