//! Configuration of the cops, and its reading from RuboCop's YAML format.

pub mod converter;
pub mod layout;
pub mod lint;
pub mod loader;
pub mod serde_helpers;
pub mod yaml;

pub use layout::LayoutConfig;
pub use lint::LintConfig;
pub use yaml::{AllCopsConfig, CopConfig, EnabledValue, InheritFrom, OptionValue, RubocopYaml};

use vstd::prelude::*;

verus! {

/// The main configuration struct.
#[derive(Debug, Clone, Copy, PartialEq, Eq, Structural)]
pub struct Config {
    /// Layout cop-specific configurations.
    pub layout: LayoutConfig,
    /// Lint cop-specific configurations.
    pub lint: LintConfig,
}

impl Config {
    /// The configuration with every cop at its default.
    pub open spec fn spec_default() -> Config {
        Config {
            layout: LayoutConfig::spec_default(),
            lint: LintConfig { debugger: lint::DebuggerConfig::spec_default() },
        }
    }
}

impl Default for Config {
    fn default() -> (c: Config)
        ensures
            c == Config::spec_default(),
    {
        Config { layout: LayoutConfig::default(), lint: LintConfig::default() }
    }
}

} // verus!
