//! Lint cop configurations.

pub mod debugger;

pub use debugger::DebuggerConfig;

use vstd::prelude::*;

verus! {

/// Lint cop configurations.
#[derive(Debug, Clone, Copy, PartialEq, Eq, Structural)]
pub struct LintConfig {
    pub debugger: DebuggerConfig,
}

impl Default for LintConfig {
    fn default() -> (c: LintConfig)
        ensures
            c.debugger == DebuggerConfig::spec_default(),
    {
        LintConfig { debugger: DebuggerConfig::default() }
    }
}

} // verus!
