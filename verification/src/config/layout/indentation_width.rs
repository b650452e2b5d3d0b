//! Configuration for Layout/IndentationWidth.
use crate::diagnostic::Severity;
use vstd::prelude::*;

verus! {

/// Configuration for Layout/IndentationWidth.
#[derive(Debug, Clone, Copy, PartialEq, Eq, Structural)]
pub struct IndentationWidthConfig {
    /// Whether the cop runs.
    pub enabled: bool,
    /// The severity of its diagnostics.
    pub severity: Severity,
    pub width: i32,
}

impl IndentationWidthConfig {
    /// The configuration that applies when none is given.
    pub open spec fn spec_default() -> IndentationWidthConfig {
        IndentationWidthConfig { enabled: true, severity: Severity::Convention, width: 2 }
    }
}

impl Default for IndentationWidthConfig {
    fn default() -> (c: IndentationWidthConfig)
        ensures
            c == IndentationWidthConfig::spec_default(),
    {
        IndentationWidthConfig { enabled: true, severity: Severity::Convention, width: 2 }
    }
}

} // verus!
