//! The configuration as a `.rubocop.yml` file writes it: files to inherit from, the global
//! settings, and the settings of each cop by the cop's name.
use crate::text::{lowered, str_eq, to_lowercase};
use vstd::prelude::*;

verus! {

/// The `inherit_from` field can be a single file or a list of files.
#[derive(Debug, Clone)]
pub enum InheritFrom {
    Unset,
    Single(String),
    Multiple(Vec<String>),
}

impl Default for InheritFrom {
    fn default() -> (r: InheritFrom)
        ensures
            r is Unset,
    {
        InheritFrom::Unset
    }
}

impl InheritFrom {
    /// The files, in order.
    pub open spec fn spec_paths(&self) -> Seq<Seq<char>> {
        match self {
            InheritFrom::Unset => Seq::empty(),
            InheritFrom::Single(s) => seq![s@],
            InheritFrom::Multiple(v) => v@.map_values(|s: String| s@),
        }
    }

    /// Convert to a list of paths.
    pub fn to_paths(&self) -> (r: Vec<String>)
        ensures
            r@.map_values(|s: String| s@) == self.spec_paths(),
    {
        match self {
            InheritFrom::Unset => Vec::new(),
            InheritFrom::Single(s) => {
                let r = vec![s.clone()];
                assert(r@.map_values(|s: String| s@) =~= self.spec_paths());
                r
            },
            InheritFrom::Multiple(v) => {
                let mut r: Vec<String> = Vec::new();
                let mut i: usize = 0;
                while i < v.len()
                    invariant
                        0 <= i <= v@.len(),
                        r@.len() == i,
                        r@.map_values(|s: String| s@) == v@.subrange(0, i as int).map_values(
                            |s: String| s@,
                        ),
                    decreases v@.len() - i,
                {
                    let ghost before = r@;
                    let c = v[i].clone();
                    r.push(c);
                    proof {
                        let lhs = r@.map_values(|s: String| s@);
                        let rhs = v@.subrange(0, i + 1).map_values(|s: String| s@);
                        assert forall|k: int| 0 <= k < lhs.len() implies lhs[k] == rhs[k] by {
                            if k < i {
                                assert(r@[k] == before[k]);
                                assert(before.map_values(|s: String| s@)[k] == v@.subrange(0, i as int).map_values(|s: String| s@)[k]);
                            }
                        }
                        assert(lhs =~= rhs);
                    }
                    i = i + 1;
                }
                assert(v@.subrange(0, i as int) =~= v@);
                r
            },
        }
    }

    /// Check if there are any inherited files.
    pub fn is_empty(&self) -> (b: bool)
        ensures
            b == (self.spec_paths().len() == 0),
    {
        match self {
            InheritFrom::Unset => true,
            InheritFrom::Single(_) => false,
            InheritFrom::Multiple(v) => v.len() == 0,
        }
    }
}

/// Global configuration that applies to all cops.
#[derive(Debug, Clone)]
pub struct AllCopsConfig {
    /// Target Ruby version (e.g., "3.2", "3.3").
    pub target_ruby_version: Option<String>,
    /// Files to exclude from all cops.
    pub exclude: Vec<String>,
    /// Files that all cops check.
    pub included: Vec<String>,
    /// Whether to use cache.
    pub use_cache: Option<bool>,
    /// Cache root directory.
    pub cache_root_directory: Option<String>,
    /// New cops behavior: enable, disable, or pending.
    pub new_cops: Option<String>,
    /// Suggested extensions.
    pub suggested_extensions: Option<bool>,
}

impl AllCopsConfig {
    /// No global setting is made: no list names a file, and no other setting is given.
    pub open spec fn is_unset(&self) -> bool {
        &&& self.target_ruby_version is None
        &&& self.exclude@.len() == 0
        &&& self.included@.len() == 0
        &&& self.use_cache is None
        &&& self.cache_root_directory is None
        &&& self.new_cops is None
        &&& self.suggested_extensions is None
    }
}

impl Default for AllCopsConfig {
    fn default() -> (c: AllCopsConfig)
        ensures
            c.target_ruby_version is None,
            c.exclude@.len() == 0,
            c.included@.len() == 0,
            c.use_cache is None,
            c.cache_root_directory is None,
            c.new_cops is None,
            c.suggested_extensions is None,
    {
        AllCopsConfig {
            target_ruby_version: None,
            exclude: Vec::new(),
            included: Vec::new(),
            use_cache: None,
            cache_root_directory: None,
            new_cops: None,
            suggested_extensions: None,
        }
    }
}

/// The `Enabled` setting of a cop: a boolean, or a word such as `pending`.
#[derive(Debug, Clone)]
pub enum EnabledValue {
    Bool(bool),
    String(String),
}

impl EnabledValue {
    /// A cop is enabled by `true`, or by any word but `false` (in any case).
    pub open spec fn spec_is_enabled(&self) -> bool {
        match self {
            EnabledValue::Bool(b) => *b,
            EnabledValue::String(s) => lowered(s@) != "false"@,
        }
    }

    /// Whether the setting enables the cop.
    pub fn is_enabled(&self) -> (b: bool)
        ensures
            b == self.spec_is_enabled(),
    {
        match self {
            EnabledValue::Bool(b) => *b,
            EnabledValue::String(s) => {
                let l = to_lowercase(s.as_str());
                !str_eq(l.as_str(), "false")
            },
        }
    }
}

/// The value of a cop option, as far as the cops read options: a string, an integer that
/// fits in an `i64`, or anything else.
#[derive(Debug, Clone)]
pub enum OptionValue {
    String(String),
    Integer(i64),
    Other,
}

/// The settings of one cop.
#[derive(Debug, Clone)]
pub struct CopConfig {
    /// `Enabled`, where it is set.
    pub enabled: Option<EnabledValue>,
    /// `Severity`, where it is set.
    pub severity: Option<String>,
    /// The other settings, by name.
    pub options: Vec<(String, OptionValue)>,
    /// `Exclude`: patterns of the files that the cop does not check.
    pub exclude: Vec<String>,
    /// `Include`: patterns of the files that the cop checks, where any are given.
    pub included: Vec<String>,
}

/// Root structure of a .rubocop.yml file.
#[derive(Debug, Clone)]
pub struct RubocopYaml {
    /// Files to inherit configuration from.
    pub inherit_from: InheritFrom,
    /// Global settings that apply to all cops.
    pub all_cops: AllCopsConfig,
    /// The settings of each cop, by the cop's name (such as `Layout/EndAlignment`).
    pub cops: Vec<(String, CopConfig)>,
}

impl Default for RubocopYaml {
    fn default() -> (y: RubocopYaml)
        ensures
            y.inherit_from is Unset,
            y.all_cops.is_unset(),
            y.cops@.len() == 0,
    {
        RubocopYaml { inherit_from: InheritFrom::Unset, all_cops: AllCopsConfig::default(), cops: Vec::new() }
    }
}

} // verus!
