//! Configuration for Lint/Debugger.
use crate::diagnostic::Severity;
use vstd::prelude::*;

verus! {

/// Configuration for Lint/Debugger.
#[derive(Debug, Clone, Copy, PartialEq, Eq, Structural)]
pub struct DebuggerConfig {
    /// Whether the cop runs.
    pub enabled: bool,
    /// The severity of its diagnostics.
    pub severity: Severity,
}

impl DebuggerConfig {
    /// The configuration that applies when none is given.
    pub open spec fn spec_default() -> DebuggerConfig {
        DebuggerConfig { enabled: true, severity: Severity::Warning }
    }
}

impl Default for DebuggerConfig {
    fn default() -> (c: DebuggerConfig)
        ensures
            c == DebuggerConfig::spec_default(),
    {
        DebuggerConfig { enabled: true, severity: Severity::Warning }
    }
}

} // verus!
