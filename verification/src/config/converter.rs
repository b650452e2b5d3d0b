//! Reading the configuration of the cops from the settings of a `.rubocop.yml` file.
//!
//! Unknown cops and settings are silently ignored.
use crate::config::layout::access_modifier_indentation::EnforcedStyle as AccessModifierStyle;
use crate::config::layout::begin_end_alignment::EnforcedStyleAlignWith as BeginEndStyle;
use crate::config::layout::def_end_alignment::EnforcedStyleAlignWith as DefEndStyle;
use crate::config::layout::end_alignment::EnforcedStyleAlignWith as EndAlignmentStyle;
use crate::config::layout::indentation_consistency::EnforcedStyle as IndentationConsistencyStyle;
use crate::config::layout::indentation_style::EnforcedStyle as IndentationStyleStyle;
use crate::config::layout::trailing_empty_lines::EnforcedStyle as TrailingEmptyLinesStyle;
use crate::config::layout::{
    AccessModifierIndentationConfig,
    BeginEndAlignmentConfig,
    DefEndAlignmentConfig,
    EmptyLinesConfig,
    EndAlignmentConfig,
    IndentationConsistencyConfig,
    IndentationStyleConfig,
    IndentationWidthConfig,
    LayoutConfig,
    LeadingEmptyLinesConfig,
    TrailingEmptyLinesConfig,
    TrailingWhitespaceConfig,
};
use crate::config::lint::{DebuggerConfig, LintConfig};
use crate::config::yaml::{CopConfig, EnabledValue, OptionValue, RubocopYaml};
use crate::config::Config;
use crate::diagnostic::Severity;
use crate::text::{lowered, str_eq, to_lowercase};
use vstd::prelude::*;

verus! {

/// Config structs that have enabled/severity fields.
pub trait HasBaseConfig: Sized {
    /// Whether the cop runs.
    spec fn base_enabled(&self) -> bool;

    /// The severity of the cop's diagnostics.
    spec fn base_severity(&self) -> Severity;

    /// The same configuration with the given base settings.
    spec fn with_base(&self, enabled: bool, severity: Severity) -> Self;

    fn set_enabled(&mut self, enabled: bool)
        ensures
            *final(self) == old(self).with_base(enabled, old(self).base_severity()),
    ;

    fn set_severity(&mut self, severity: Severity)
        ensures
            *final(self) == old(self).with_base(old(self).base_enabled(), severity),
    ;
}

impl HasBaseConfig for EndAlignmentConfig {
    open spec fn base_enabled(&self) -> bool {
        self.enabled
    }

    open spec fn base_severity(&self) -> Severity {
        self.severity
    }

    open spec fn with_base(&self, enabled: bool, severity: Severity) -> Self {
        EndAlignmentConfig { enabled, severity, ..*self }
    }

    fn set_enabled(&mut self, enabled: bool) {
        self.enabled = enabled;
    }

    fn set_severity(&mut self, severity: Severity) {
        self.severity = severity;
    }
}

impl HasBaseConfig for IndentationWidthConfig {
    open spec fn base_enabled(&self) -> bool {
        self.enabled
    }

    open spec fn base_severity(&self) -> Severity {
        self.severity
    }

    open spec fn with_base(&self, enabled: bool, severity: Severity) -> Self {
        IndentationWidthConfig { enabled, severity, ..*self }
    }

    fn set_enabled(&mut self, enabled: bool) {
        self.enabled = enabled;
    }

    fn set_severity(&mut self, severity: Severity) {
        self.severity = severity;
    }
}

impl HasBaseConfig for AccessModifierIndentationConfig {
    open spec fn base_enabled(&self) -> bool {
        self.enabled
    }

    open spec fn base_severity(&self) -> Severity {
        self.severity
    }

    open spec fn with_base(&self, enabled: bool, severity: Severity) -> Self {
        AccessModifierIndentationConfig { enabled, severity, ..*self }
    }

    fn set_enabled(&mut self, enabled: bool) {
        self.enabled = enabled;
    }

    fn set_severity(&mut self, severity: Severity) {
        self.severity = severity;
    }
}

impl HasBaseConfig for BeginEndAlignmentConfig {
    open spec fn base_enabled(&self) -> bool {
        self.enabled
    }

    open spec fn base_severity(&self) -> Severity {
        self.severity
    }

    open spec fn with_base(&self, enabled: bool, severity: Severity) -> Self {
        BeginEndAlignmentConfig { enabled, severity, ..*self }
    }

    fn set_enabled(&mut self, enabled: bool) {
        self.enabled = enabled;
    }

    fn set_severity(&mut self, severity: Severity) {
        self.severity = severity;
    }
}

impl HasBaseConfig for DefEndAlignmentConfig {
    open spec fn base_enabled(&self) -> bool {
        self.enabled
    }

    open spec fn base_severity(&self) -> Severity {
        self.severity
    }

    open spec fn with_base(&self, enabled: bool, severity: Severity) -> Self {
        DefEndAlignmentConfig { enabled, severity, ..*self }
    }

    fn set_enabled(&mut self, enabled: bool) {
        self.enabled = enabled;
    }

    fn set_severity(&mut self, severity: Severity) {
        self.severity = severity;
    }
}

impl HasBaseConfig for IndentationConsistencyConfig {
    open spec fn base_enabled(&self) -> bool {
        self.enabled
    }

    open spec fn base_severity(&self) -> Severity {
        self.severity
    }

    open spec fn with_base(&self, enabled: bool, severity: Severity) -> Self {
        IndentationConsistencyConfig { enabled, severity, ..*self }
    }

    fn set_enabled(&mut self, enabled: bool) {
        self.enabled = enabled;
    }

    fn set_severity(&mut self, severity: Severity) {
        self.severity = severity;
    }
}

impl HasBaseConfig for IndentationStyleConfig {
    open spec fn base_enabled(&self) -> bool {
        self.enabled
    }

    open spec fn base_severity(&self) -> Severity {
        self.severity
    }

    open spec fn with_base(&self, enabled: bool, severity: Severity) -> Self {
        IndentationStyleConfig { enabled, severity, ..*self }
    }

    fn set_enabled(&mut self, enabled: bool) {
        self.enabled = enabled;
    }

    fn set_severity(&mut self, severity: Severity) {
        self.severity = severity;
    }
}

impl HasBaseConfig for TrailingWhitespaceConfig {
    open spec fn base_enabled(&self) -> bool {
        self.enabled
    }

    open spec fn base_severity(&self) -> Severity {
        self.severity
    }

    open spec fn with_base(&self, enabled: bool, severity: Severity) -> Self {
        TrailingWhitespaceConfig { enabled, severity, ..*self }
    }

    fn set_enabled(&mut self, enabled: bool) {
        self.enabled = enabled;
    }

    fn set_severity(&mut self, severity: Severity) {
        self.severity = severity;
    }
}

impl HasBaseConfig for TrailingEmptyLinesConfig {
    open spec fn base_enabled(&self) -> bool {
        self.enabled
    }

    open spec fn base_severity(&self) -> Severity {
        self.severity
    }

    open spec fn with_base(&self, enabled: bool, severity: Severity) -> Self {
        TrailingEmptyLinesConfig { enabled, severity, ..*self }
    }

    fn set_enabled(&mut self, enabled: bool) {
        self.enabled = enabled;
    }

    fn set_severity(&mut self, severity: Severity) {
        self.severity = severity;
    }
}

impl HasBaseConfig for LeadingEmptyLinesConfig {
    open spec fn base_enabled(&self) -> bool {
        self.enabled
    }

    open spec fn base_severity(&self) -> Severity {
        self.severity
    }

    open spec fn with_base(&self, enabled: bool, severity: Severity) -> Self {
        LeadingEmptyLinesConfig { enabled, severity, ..*self }
    }

    fn set_enabled(&mut self, enabled: bool) {
        self.enabled = enabled;
    }

    fn set_severity(&mut self, severity: Severity) {
        self.severity = severity;
    }
}

impl HasBaseConfig for EmptyLinesConfig {
    open spec fn base_enabled(&self) -> bool {
        self.enabled
    }

    open spec fn base_severity(&self) -> Severity {
        self.severity
    }

    open spec fn with_base(&self, enabled: bool, severity: Severity) -> Self {
        EmptyLinesConfig { enabled, severity, ..*self }
    }

    fn set_enabled(&mut self, enabled: bool) {
        self.enabled = enabled;
    }

    fn set_severity(&mut self, severity: Severity) {
        self.severity = severity;
    }
}

impl HasBaseConfig for DebuggerConfig {
    open spec fn base_enabled(&self) -> bool {
        self.enabled
    }

    open spec fn base_severity(&self) -> Severity {
        self.severity
    }

    open spec fn with_base(&self, enabled: bool, severity: Severity) -> Self {
        DebuggerConfig { enabled, severity, ..*self }
    }

    fn set_enabled(&mut self, enabled: bool) {
        self.enabled = enabled;
    }

    fn set_severity(&mut self, severity: Severity) {
        self.severity = severity;
    }
}

/// The first option of `opts` named `key`.
pub open spec fn find_option(opts: Seq<(String, OptionValue)>, key: Seq<char>) -> Option<OptionValue>
    decreases opts.len(),
{
    if opts.len() == 0 {
        None
    } else if opts[0].0@ == key {
        Some(opts[0].1)
    } else {
        find_option(opts.drop_first(), key)
    }
}

/// The string value of option `key` of `cop`.
pub open spec fn spec_string_option(cop: CopConfig, key: Seq<char>) -> Option<Seq<char>> {
    match find_option(cop.options@, key) {
        Some(OptionValue::String(s)) => Some(s@),
        _ => None,
    }
}

/// The integer value of option `key` of `cop`.
pub open spec fn spec_int_option(cop: CopConfig, key: Seq<char>) -> Option<i64> {
    match find_option(cop.options@, key) {
        Some(OptionValue::Integer(i)) => Some(i),
        _ => None,
    }
}

/// The severity that a lowercase name stands for, if any.
pub open spec fn spec_severity_name(s: Seq<char>) -> Option<Severity> {
    if s == "error"@ || s == "fatal"@ {
        Some(Severity::Error)
    } else if s == "warning"@ || s == "warn"@ {
        Some(Severity::Warning)
    } else if s == "convention"@ {
        Some(Severity::Convention)
    } else if s == "info"@ || s == "refactor"@ {
        Some(Severity::Convention)
    } else {
        None
    }
}

/// The configuration `c` with the `Enabled` and `Severity` settings of `cop` applied.
pub open spec fn spec_apply_base<T: HasBaseConfig>(c: T, cop: CopConfig) -> T {
    let c1 = match cop.enabled {
        Some(v) => c.with_base(v.spec_is_enabled(), c.base_severity()),
        None => c,
    };
    match cop.severity {
        Some(s) => match spec_severity_name(lowered(s@)) {
            Some(sev) => c1.with_base(c1.base_enabled(), sev),
            None => c1,
        },
        None => c1,
    }
}

/// Layout/EndAlignment with the settings of `cop` applied.
pub open spec fn spec_apply_end_alignment(c: EndAlignmentConfig, cop: CopConfig) -> EndAlignmentConfig {
    let b = spec_apply_base(c, cop);
    match spec_string_option(cop, "EnforcedStyleAlignWith"@) {
        Some(s) => {
            let l = lowered(s);
            EndAlignmentConfig {
                enforced_style_align_with: if l == "keyword"@ {
                    EndAlignmentStyle::Keyword
                } else if l == "variable"@ {
                    EndAlignmentStyle::Variable
                } else if l == "start_of_line"@ {
                    EndAlignmentStyle::StartOfLine
                } else {
                    b.enforced_style_align_with
                },
                ..b
            }
        },
        None => b,
    }
}

/// Layout/IndentationWidth with the settings of `cop` applied.
pub open spec fn spec_apply_indentation_width(c: IndentationWidthConfig, cop: CopConfig) -> IndentationWidthConfig {
    let b = spec_apply_base(c, cop);
    match spec_int_option(cop, "Width"@) {
        Some(w) => IndentationWidthConfig { width: w as i32, ..b },
        None => b,
    }
}

/// Layout/AccessModifierIndentation with the settings of `cop` applied.
pub open spec fn spec_apply_access_modifier_indentation(
    c: AccessModifierIndentationConfig,
    cop: CopConfig,
) -> AccessModifierIndentationConfig {
    let b = spec_apply_base(c, cop);
    let b2 = match spec_string_option(cop, "EnforcedStyle"@) {
        Some(s) => {
            let l = lowered(s);
            AccessModifierIndentationConfig {
                enforced_style: if l == "indent"@ {
                    AccessModifierStyle::Indent
                } else if l == "outdent"@ {
                    AccessModifierStyle::Outdent
                } else {
                    b.enforced_style
                },
                ..b
            }
        },
        None => b,
    };
    match spec_int_option(cop, "IndentationWidth"@) {
        Some(w) => AccessModifierIndentationConfig { indentation_width: Some(w as usize), ..b2 },
        None => b2,
    }
}

/// Layout/BeginEndAlignment with the settings of `cop` applied.
pub open spec fn spec_apply_begin_end_alignment(c: BeginEndAlignmentConfig, cop: CopConfig) -> BeginEndAlignmentConfig {
    let b = spec_apply_base(c, cop);
    match spec_string_option(cop, "EnforcedStyleAlignWith"@) {
        Some(s) => {
            let l = lowered(s);
            BeginEndAlignmentConfig {
                enforced_style_align_with: if l == "start_of_line"@ {
                    BeginEndStyle::StartOfLine
                } else if l == "begin"@ {
                    BeginEndStyle::Begin
                } else {
                    b.enforced_style_align_with
                },
                ..b
            }
        },
        None => b,
    }
}

/// Layout/DefEndAlignment with the settings of `cop` applied.
pub open spec fn spec_apply_def_end_alignment(c: DefEndAlignmentConfig, cop: CopConfig) -> DefEndAlignmentConfig {
    let b = spec_apply_base(c, cop);
    match spec_string_option(cop, "EnforcedStyleAlignWith"@) {
        Some(s) => {
            let l = lowered(s);
            DefEndAlignmentConfig {
                enforced_style_align_with: if l == "start_of_line"@ {
                    DefEndStyle::StartOfLine
                } else if l == "def"@ {
                    DefEndStyle::Def
                } else {
                    b.enforced_style_align_with
                },
                ..b
            }
        },
        None => b,
    }
}

/// A text with each space turned into an underscore.
pub open spec fn spaces_to_underscores(s: Seq<char>) -> Seq<char> {
    s.map_values(|c: char| if c == ' ' { '_' } else { c })
}

/// Layout/IndentationConsistency with the settings of `cop` applied.
pub open spec fn spec_apply_indentation_consistency(
    c: IndentationConsistencyConfig,
    cop: CopConfig,
) -> IndentationConsistencyConfig {
    let b = spec_apply_base(c, cop);
    match spec_string_option(cop, "EnforcedStyle"@) {
        Some(s) => {
            let l = spaces_to_underscores(lowered(s));
            IndentationConsistencyConfig {
                enforced_style: if l == "normal"@ {
                    IndentationConsistencyStyle::Normal
                } else if l == "indented_internal_methods"@ {
                    IndentationConsistencyStyle::IndentedInternalMethods
                } else {
                    b.enforced_style
                },
                ..b
            }
        },
        None => b,
    }
}

/// Layout/IndentationStyle with the settings of `cop` applied.
pub open spec fn spec_apply_indentation_style(c: IndentationStyleConfig, cop: CopConfig) -> IndentationStyleConfig {
    let b = spec_apply_base(c, cop);
    let b2 = match spec_string_option(cop, "EnforcedStyle"@) {
        Some(s) => {
            let l = lowered(s);
            IndentationStyleConfig {
                enforced_style: if l == "spaces"@ {
                    IndentationStyleStyle::Spaces
                } else if l == "tabs"@ {
                    IndentationStyleStyle::Tabs
                } else {
                    b.enforced_style
                },
                ..b
            }
        },
        None => b,
    };
    match spec_int_option(cop, "IndentationWidth"@) {
        Some(w) => IndentationStyleConfig { indentation_width: w as usize, ..b2 },
        None => b2,
    }
}

/// Layout/TrailingWhitespace with the settings of `cop` applied.
pub open spec fn spec_apply_trailing_whitespace(c: TrailingWhitespaceConfig, cop: CopConfig) -> TrailingWhitespaceConfig {
    spec_apply_base(c, cop)
}

/// Layout/TrailingEmptyLines with the settings of `cop` applied.
pub open spec fn spec_apply_trailing_empty_lines(c: TrailingEmptyLinesConfig, cop: CopConfig) -> TrailingEmptyLinesConfig {
    let b = spec_apply_base(c, cop);
    match spec_string_option(cop, "EnforcedStyle"@) {
        Some(s) => {
            let l = lowered(s);
            TrailingEmptyLinesConfig {
                enforced_style: if l == "final_newline"@ {
                    TrailingEmptyLinesStyle::FinalNewline
                } else if l == "final_blank_line"@ {
                    TrailingEmptyLinesStyle::FinalBlankLine
                } else {
                    b.enforced_style
                },
                ..b
            }
        },
        None => b,
    }
}

/// Layout/LeadingEmptyLines with the settings of `cop` applied.
pub open spec fn spec_apply_leading_empty_lines(c: LeadingEmptyLinesConfig, cop: CopConfig) -> LeadingEmptyLinesConfig {
    spec_apply_base(c, cop)
}

/// Layout/EmptyLines with the settings of `cop` applied.
pub open spec fn spec_apply_empty_lines(c: EmptyLinesConfig, cop: CopConfig) -> EmptyLinesConfig {
    spec_apply_base(c, cop)
}

/// Lint/Debugger with the settings of `cop` applied.
pub open spec fn spec_apply_debugger(c: DebuggerConfig, cop: CopConfig) -> DebuggerConfig {
    spec_apply_base(c, cop)
}

/// The configuration `c` with the settings `cop` of the cop named `name` applied; a name
/// of no known cop changes nothing.
pub open spec fn apply_named(c: Config, name: Seq<char>, cop: CopConfig) -> Config {
    if name == "Layout/EndAlignment"@ {
        Config { layout: LayoutConfig { end_alignment: spec_apply_end_alignment(c.layout.end_alignment, cop), ..c.layout }, ..c }
    } else if name == "Layout/IndentationWidth"@ {
        Config { layout: LayoutConfig { indentation_width: spec_apply_indentation_width(c.layout.indentation_width, cop), ..c.layout }, ..c }
    } else if name == "Layout/AccessModifierIndentation"@ {
        Config { layout: LayoutConfig { access_modifier_indentation: spec_apply_access_modifier_indentation(c.layout.access_modifier_indentation, cop), ..c.layout }, ..c }
    } else if name == "Layout/BeginEndAlignment"@ {
        Config { layout: LayoutConfig { begin_end_alignment: spec_apply_begin_end_alignment(c.layout.begin_end_alignment, cop), ..c.layout }, ..c }
    } else if name == "Layout/DefEndAlignment"@ {
        Config { layout: LayoutConfig { def_end_alignment: spec_apply_def_end_alignment(c.layout.def_end_alignment, cop), ..c.layout }, ..c }
    } else if name == "Layout/IndentationConsistency"@ {
        Config { layout: LayoutConfig { indentation_consistency: spec_apply_indentation_consistency(c.layout.indentation_consistency, cop), ..c.layout }, ..c }
    } else if name == "Layout/IndentationStyle"@ {
        Config { layout: LayoutConfig { indentation_style: spec_apply_indentation_style(c.layout.indentation_style, cop), ..c.layout }, ..c }
    } else if name == "Layout/TrailingWhitespace"@ {
        Config { layout: LayoutConfig { trailing_whitespace: spec_apply_trailing_whitespace(c.layout.trailing_whitespace, cop), ..c.layout }, ..c }
    } else if name == "Layout/TrailingEmptyLines"@ {
        Config { layout: LayoutConfig { trailing_empty_lines: spec_apply_trailing_empty_lines(c.layout.trailing_empty_lines, cop), ..c.layout }, ..c }
    } else if name == "Layout/LeadingEmptyLines"@ {
        Config { layout: LayoutConfig { leading_empty_lines: spec_apply_leading_empty_lines(c.layout.leading_empty_lines, cop), ..c.layout }, ..c }
    } else if name == "Layout/EmptyLines"@ {
        Config { layout: LayoutConfig { empty_lines: spec_apply_empty_lines(c.layout.empty_lines, cop), ..c.layout }, ..c }
    } else if name == "Lint/Debugger"@ {
        Config { lint: LintConfig { debugger: spec_apply_debugger(c.lint.debugger, cop) }, ..c }
    } else {
        c
    }
}

/// An `EnforcedStyleAlignWith` of `keyword`, `variable` or `start_of_line` for Layout/EndAlignment,
/// in any case, selects that style.
pub proof fn lemma_end_alignment_styles(c: Config, cop: CopConfig)
    ensures
        (find_option(cop.options@, "EnforcedStyleAlignWith"@) matches Some(OptionValue::String(s)) && lowered(s@)
            == "keyword"@)
            ==> apply_named(c, "Layout/EndAlignment"@, cop).layout.end_alignment.enforced_style_align_with
            == EndAlignmentStyle::Keyword,
        (find_option(cop.options@, "EnforcedStyleAlignWith"@) matches Some(OptionValue::String(s)) && lowered(s@)
            == "variable"@)
            ==> apply_named(c, "Layout/EndAlignment"@, cop).layout.end_alignment.enforced_style_align_with
            == EndAlignmentStyle::Variable,
        (find_option(cop.options@, "EnforcedStyleAlignWith"@) matches Some(OptionValue::String(s)) && lowered(s@)
            == "start_of_line"@)
            ==> apply_named(c, "Layout/EndAlignment"@, cop).layout.end_alignment.enforced_style_align_with
            == EndAlignmentStyle::StartOfLine,
{
    reveal_strlit("Layout/EndAlignment");
    reveal_strlit("EnforcedStyleAlignWith");
    reveal_strlit("keyword");
    reveal_strlit("variable");
    reveal_strlit("start_of_line");
    assert("variable"@ != "keyword"@) by {
        assert("variable"@[0] != "keyword"@[0]);
    }
    assert("start_of_line"@ != "keyword"@) by {
        assert("start_of_line"@[0] != "keyword"@[0]);
    }
    assert("start_of_line"@ != "variable"@) by {
        assert("start_of_line"@[0] != "variable"@[0]);
    }
}

/// An `EnforcedStyle` of `indent` or `outdent` for Layout/AccessModifierIndentation, in any case,
/// selects that style.
pub proof fn lemma_access_modifier_styles(c: Config, cop: CopConfig)
    ensures
        (find_option(cop.options@, "EnforcedStyle"@) matches Some(OptionValue::String(s)) && lowered(s@)
            == "indent"@)
            ==> apply_named(c, "Layout/AccessModifierIndentation"@, cop).layout.access_modifier_indentation.enforced_style
            == AccessModifierStyle::Indent,
        (find_option(cop.options@, "EnforcedStyle"@) matches Some(OptionValue::String(s)) && lowered(s@)
            == "outdent"@)
            ==> apply_named(c, "Layout/AccessModifierIndentation"@, cop).layout.access_modifier_indentation.enforced_style
            == AccessModifierStyle::Outdent,
{
    reveal_strlit("Layout/EndAlignment");
    reveal_strlit("Layout/IndentationWidth");
    reveal_strlit("Layout/AccessModifierIndentation");
    reveal_strlit("EnforcedStyle");
    reveal_strlit("indent");
    reveal_strlit("outdent");
    assert("Layout/AccessModifierIndentation"@ != "Layout/EndAlignment"@) by {
        assert("Layout/AccessModifierIndentation"@[7] != "Layout/EndAlignment"@[7]);
    }
    assert("Layout/AccessModifierIndentation"@ != "Layout/IndentationWidth"@) by {
        assert("Layout/AccessModifierIndentation"@[7] != "Layout/IndentationWidth"@[7]);
    }
    assert("outdent"@ != "indent"@) by {
        assert("outdent"@[0] != "indent"@[0]);
    }
}

/// An `EnforcedStyleAlignWith` of `start_of_line` or `begin` for Layout/BeginEndAlignment, in any
/// case, selects that style.
pub proof fn lemma_begin_end_styles(c: Config, cop: CopConfig)
    ensures
        (find_option(cop.options@, "EnforcedStyleAlignWith"@) matches Some(OptionValue::String(s)) && lowered(s@)
            == "start_of_line"@)
            ==> apply_named(c, "Layout/BeginEndAlignment"@, cop).layout.begin_end_alignment.enforced_style_align_with
            == BeginEndStyle::StartOfLine,
        (find_option(cop.options@, "EnforcedStyleAlignWith"@) matches Some(OptionValue::String(s)) && lowered(s@)
            == "begin"@)
            ==> apply_named(c, "Layout/BeginEndAlignment"@, cop).layout.begin_end_alignment.enforced_style_align_with
            == BeginEndStyle::Begin,
{
    reveal_strlit("Layout/EndAlignment");
    reveal_strlit("Layout/IndentationWidth");
    reveal_strlit("Layout/AccessModifierIndentation");
    reveal_strlit("Layout/BeginEndAlignment");
    reveal_strlit("EnforcedStyleAlignWith");
    reveal_strlit("start_of_line");
    reveal_strlit("begin");
    assert("Layout/BeginEndAlignment"@ != "Layout/EndAlignment"@) by {
        assert("Layout/BeginEndAlignment"@[7] != "Layout/EndAlignment"@[7]);
    }
    assert("Layout/BeginEndAlignment"@ != "Layout/IndentationWidth"@) by {
        assert("Layout/BeginEndAlignment"@[7] != "Layout/IndentationWidth"@[7]);
    }
    assert("Layout/BeginEndAlignment"@ != "Layout/AccessModifierIndentation"@) by {
        assert("Layout/BeginEndAlignment"@[7] != "Layout/AccessModifierIndentation"@[7]);
    }
    assert("begin"@ != "start_of_line"@) by {
        assert("begin"@[0] != "start_of_line"@[0]);
    }
}

/// An `EnforcedStyleAlignWith` of `start_of_line` or `def` for Layout/DefEndAlignment, in any case,
/// selects that style.
pub proof fn lemma_def_end_styles(c: Config, cop: CopConfig)
    ensures
        (find_option(cop.options@, "EnforcedStyleAlignWith"@) matches Some(OptionValue::String(s)) && lowered(s@)
            == "start_of_line"@)
            ==> apply_named(c, "Layout/DefEndAlignment"@, cop).layout.def_end_alignment.enforced_style_align_with
            == DefEndStyle::StartOfLine,
        (find_option(cop.options@, "EnforcedStyleAlignWith"@) matches Some(OptionValue::String(s)) && lowered(s@)
            == "def"@)
            ==> apply_named(c, "Layout/DefEndAlignment"@, cop).layout.def_end_alignment.enforced_style_align_with
            == DefEndStyle::Def,
{
    reveal_strlit("Layout/EndAlignment");
    reveal_strlit("Layout/IndentationWidth");
    reveal_strlit("Layout/AccessModifierIndentation");
    reveal_strlit("Layout/BeginEndAlignment");
    reveal_strlit("Layout/DefEndAlignment");
    reveal_strlit("EnforcedStyleAlignWith");
    reveal_strlit("start_of_line");
    reveal_strlit("def");
    assert("Layout/DefEndAlignment"@ != "Layout/EndAlignment"@) by {
        assert("Layout/DefEndAlignment"@[7] != "Layout/EndAlignment"@[7]);
    }
    assert("Layout/DefEndAlignment"@ != "Layout/IndentationWidth"@) by {
        assert("Layout/DefEndAlignment"@[7] != "Layout/IndentationWidth"@[7]);
    }
    assert("Layout/DefEndAlignment"@ != "Layout/AccessModifierIndentation"@) by {
        assert("Layout/DefEndAlignment"@[7] != "Layout/AccessModifierIndentation"@[7]);
    }
    assert("Layout/DefEndAlignment"@ != "Layout/BeginEndAlignment"@) by {
        assert("Layout/DefEndAlignment"@[7] != "Layout/BeginEndAlignment"@[7]);
    }
    assert("def"@ != "start_of_line"@) by {
        assert("def"@[0] != "start_of_line"@[0]);
    }
}

/// An `EnforcedStyle` of `normal` or `indented_internal_methods` for Layout/IndentationConsistency,
/// in any case, selects that style.
pub proof fn lemma_indentation_consistency_styles(c: Config, cop: CopConfig)
    ensures
        (find_option(cop.options@, "EnforcedStyle"@) matches Some(OptionValue::String(s)) && lowered(s@)
            == "normal"@)
            ==> apply_named(c, "Layout/IndentationConsistency"@, cop).layout.indentation_consistency.enforced_style
            == IndentationConsistencyStyle::Normal,
        (find_option(cop.options@, "EnforcedStyle"@) matches Some(OptionValue::String(s)) && lowered(s@)
            == "indented_internal_methods"@)
            ==> apply_named(c, "Layout/IndentationConsistency"@, cop).layout.indentation_consistency.enforced_style
            == IndentationConsistencyStyle::IndentedInternalMethods,
{
    reveal_strlit("Layout/EndAlignment");
    reveal_strlit("Layout/IndentationWidth");
    reveal_strlit("Layout/AccessModifierIndentation");
    reveal_strlit("Layout/BeginEndAlignment");
    reveal_strlit("Layout/DefEndAlignment");
    reveal_strlit("Layout/IndentationConsistency");
    reveal_strlit("EnforcedStyle");
    reveal_strlit("normal");
    reveal_strlit("indented_internal_methods");
    assert("Layout/IndentationConsistency"@ != "Layout/EndAlignment"@) by {
        assert("Layout/IndentationConsistency"@[7] != "Layout/EndAlignment"@[7]);
    }
    assert("Layout/IndentationConsistency"@ != "Layout/IndentationWidth"@) by {
        assert("Layout/IndentationConsistency"@[18] != "Layout/IndentationWidth"@[18]);
    }
    assert("Layout/IndentationConsistency"@ != "Layout/AccessModifierIndentation"@) by {
        assert("Layout/IndentationConsistency"@[7] != "Layout/AccessModifierIndentation"@[7]);
    }
    assert("Layout/IndentationConsistency"@ != "Layout/BeginEndAlignment"@) by {
        assert("Layout/IndentationConsistency"@[7] != "Layout/BeginEndAlignment"@[7]);
    }
    assert("Layout/IndentationConsistency"@ != "Layout/DefEndAlignment"@) by {
        assert("Layout/IndentationConsistency"@[7] != "Layout/DefEndAlignment"@[7]);
    }
    assert("indented_internal_methods"@ != "normal"@) by {
        assert("indented_internal_methods"@[0] != "normal"@[0]);
    }
    assert(spaces_to_underscores("normal"@) =~= "normal"@);
    assert(spaces_to_underscores("indented_internal_methods"@) =~= "indented_internal_methods"@);
}

/// An `EnforcedStyle` of `spaces` or `tabs` for Layout/IndentationStyle, in any case, selects that
/// style.
pub proof fn lemma_indentation_style_styles(c: Config, cop: CopConfig)
    ensures
        (find_option(cop.options@, "EnforcedStyle"@) matches Some(OptionValue::String(s)) && lowered(s@)
            == "spaces"@)
            ==> apply_named(c, "Layout/IndentationStyle"@, cop).layout.indentation_style.enforced_style
            == IndentationStyleStyle::Spaces,
        (find_option(cop.options@, "EnforcedStyle"@) matches Some(OptionValue::String(s)) && lowered(s@)
            == "tabs"@)
            ==> apply_named(c, "Layout/IndentationStyle"@, cop).layout.indentation_style.enforced_style
            == IndentationStyleStyle::Tabs,
{
    reveal_strlit("Layout/EndAlignment");
    reveal_strlit("Layout/IndentationWidth");
    reveal_strlit("Layout/AccessModifierIndentation");
    reveal_strlit("Layout/BeginEndAlignment");
    reveal_strlit("Layout/DefEndAlignment");
    reveal_strlit("Layout/IndentationConsistency");
    reveal_strlit("Layout/IndentationStyle");
    reveal_strlit("EnforcedStyle");
    reveal_strlit("spaces");
    reveal_strlit("tabs");
    assert("Layout/IndentationStyle"@ != "Layout/EndAlignment"@) by {
        assert("Layout/IndentationStyle"@[7] != "Layout/EndAlignment"@[7]);
    }
    assert("Layout/IndentationStyle"@ != "Layout/IndentationWidth"@) by {
        assert("Layout/IndentationStyle"@[18] != "Layout/IndentationWidth"@[18]);
    }
    assert("Layout/IndentationStyle"@ != "Layout/AccessModifierIndentation"@) by {
        assert("Layout/IndentationStyle"@[7] != "Layout/AccessModifierIndentation"@[7]);
    }
    assert("Layout/IndentationStyle"@ != "Layout/BeginEndAlignment"@) by {
        assert("Layout/IndentationStyle"@[7] != "Layout/BeginEndAlignment"@[7]);
    }
    assert("Layout/IndentationStyle"@ != "Layout/DefEndAlignment"@) by {
        assert("Layout/IndentationStyle"@[7] != "Layout/DefEndAlignment"@[7]);
    }
    assert("Layout/IndentationStyle"@ != "Layout/IndentationConsistency"@) by {
        assert("Layout/IndentationStyle"@[18] != "Layout/IndentationConsistency"@[18]);
    }
    assert("tabs"@ != "spaces"@) by {
        assert("tabs"@[0] != "spaces"@[0]);
    }
}

/// An `EnforcedStyle` of `final_newline` or `final_blank_line` for Layout/TrailingEmptyLines, in
/// any case, selects that style.
pub proof fn lemma_trailing_empty_lines_styles(c: Config, cop: CopConfig)
    ensures
        (find_option(cop.options@, "EnforcedStyle"@) matches Some(OptionValue::String(s)) && lowered(s@)
            == "final_newline"@)
            ==> apply_named(c, "Layout/TrailingEmptyLines"@, cop).layout.trailing_empty_lines.enforced_style
            == TrailingEmptyLinesStyle::FinalNewline,
        (find_option(cop.options@, "EnforcedStyle"@) matches Some(OptionValue::String(s)) && lowered(s@)
            == "final_blank_line"@)
            ==> apply_named(c, "Layout/TrailingEmptyLines"@, cop).layout.trailing_empty_lines.enforced_style
            == TrailingEmptyLinesStyle::FinalBlankLine,
{
    reveal_strlit("Layout/EndAlignment");
    reveal_strlit("Layout/IndentationWidth");
    reveal_strlit("Layout/AccessModifierIndentation");
    reveal_strlit("Layout/BeginEndAlignment");
    reveal_strlit("Layout/DefEndAlignment");
    reveal_strlit("Layout/IndentationConsistency");
    reveal_strlit("Layout/IndentationStyle");
    reveal_strlit("Layout/TrailingWhitespace");
    reveal_strlit("Layout/TrailingEmptyLines");
    reveal_strlit("EnforcedStyle");
    reveal_strlit("final_newline");
    reveal_strlit("final_blank_line");
    assert("Layout/TrailingEmptyLines"@ != "Layout/EndAlignment"@) by {
        assert("Layout/TrailingEmptyLines"@[7] != "Layout/EndAlignment"@[7]);
    }
    assert("Layout/TrailingEmptyLines"@ != "Layout/IndentationWidth"@) by {
        assert("Layout/TrailingEmptyLines"@[7] != "Layout/IndentationWidth"@[7]);
    }
    assert("Layout/TrailingEmptyLines"@ != "Layout/AccessModifierIndentation"@) by {
        assert("Layout/TrailingEmptyLines"@[7] != "Layout/AccessModifierIndentation"@[7]);
    }
    assert("Layout/TrailingEmptyLines"@ != "Layout/BeginEndAlignment"@) by {
        assert("Layout/TrailingEmptyLines"@[7] != "Layout/BeginEndAlignment"@[7]);
    }
    assert("Layout/TrailingEmptyLines"@ != "Layout/DefEndAlignment"@) by {
        assert("Layout/TrailingEmptyLines"@[7] != "Layout/DefEndAlignment"@[7]);
    }
    assert("Layout/TrailingEmptyLines"@ != "Layout/IndentationConsistency"@) by {
        assert("Layout/TrailingEmptyLines"@[7] != "Layout/IndentationConsistency"@[7]);
    }
    assert("Layout/TrailingEmptyLines"@ != "Layout/IndentationStyle"@) by {
        assert("Layout/TrailingEmptyLines"@[7] != "Layout/IndentationStyle"@[7]);
    }
    assert("Layout/TrailingEmptyLines"@ != "Layout/TrailingWhitespace"@) by {
        assert("Layout/TrailingEmptyLines"@[15] != "Layout/TrailingWhitespace"@[15]);
    }
    assert("final_blank_line"@ != "final_newline"@) by {
        assert("final_blank_line"@[6] != "final_newline"@[6]);
    }
}

/// The `Enabled` and `Severity` settings of a cop, shown on Lint/Debugger: `Enabled: true`
/// turns it on, `false` off, and a word turns it off only when it is `false` in some case; a
/// `Severity` of `error` or `fatal` makes its diagnostics errors, `warning` or `warn` warnings,
/// `convention`, `info` or `refactor` conventions, in any case; an absent setting, or another
/// word for the severity, leaves what was there.
pub proof fn lemma_debugger_base_settings(c: Config, cop: CopConfig)
    ensures
        cop.enabled == Some(EnabledValue::Bool(true)) ==> apply_named(c, "Lint/Debugger"@, cop).lint.debugger.enabled,
        cop.enabled == Some(EnabledValue::Bool(false)) ==> !apply_named(c, "Lint/Debugger"@, cop).lint.debugger.enabled,
        cop.enabled matches Some(EnabledValue::String(w)) ==> apply_named(c, "Lint/Debugger"@, cop).lint.debugger.enabled
            == (lowered(w@) != "false"@),
        cop.enabled is None ==> apply_named(c, "Lint/Debugger"@, cop).lint.debugger.enabled
            == c.lint.debugger.enabled,
        cop.severity matches Some(s) && (lowered(s@) == "error"@ || lowered(s@) == "fatal"@)
            ==> apply_named(c, "Lint/Debugger"@, cop).lint.debugger.severity == Severity::Error,
        cop.severity matches Some(s) && (lowered(s@) == "warning"@ || lowered(s@) == "warn"@)
            ==> apply_named(c, "Lint/Debugger"@, cop).lint.debugger.severity == Severity::Warning,
        cop.severity matches Some(s) && (lowered(s@) == "convention"@ || lowered(s@) == "info"@
            || lowered(s@) == "refactor"@) ==> apply_named(c, "Lint/Debugger"@, cop).lint.debugger.severity
            == Severity::Convention,
        cop.severity matches Some(s) && !(lowered(s@) == "error"@ || lowered(s@) == "fatal"@
            || lowered(s@) == "warning"@ || lowered(s@) == "warn"@ || lowered(s@) == "convention"@
            || lowered(s@) == "info"@ || lowered(s@) == "refactor"@) ==> apply_named(c, "Lint/Debugger"@, cop).lint.debugger.severity
            == c.lint.debugger.severity,
        cop.severity is None ==> apply_named(c, "Lint/Debugger"@, cop).lint.debugger.severity
            == c.lint.debugger.severity,
{
    reveal_strlit("Layout/EndAlignment");
    reveal_strlit("Layout/IndentationWidth");
    reveal_strlit("Layout/AccessModifierIndentation");
    reveal_strlit("Layout/BeginEndAlignment");
    reveal_strlit("Layout/DefEndAlignment");
    reveal_strlit("Layout/IndentationConsistency");
    reveal_strlit("Layout/IndentationStyle");
    reveal_strlit("Layout/TrailingWhitespace");
    reveal_strlit("Layout/TrailingEmptyLines");
    reveal_strlit("Layout/LeadingEmptyLines");
    reveal_strlit("Layout/EmptyLines");
    reveal_strlit("Lint/Debugger");
    reveal_strlit("false");
    reveal_strlit("error");
    reveal_strlit("fatal");
    reveal_strlit("warning");
    reveal_strlit("warn");
    reveal_strlit("convention");
    reveal_strlit("info");
    reveal_strlit("refactor");
    assert("Lint/Debugger"@ != "Layout/EndAlignment"@) by {
        assert("Lint/Debugger"@.len() != "Layout/EndAlignment"@.len());
    }
    assert("Lint/Debugger"@ != "Layout/IndentationWidth"@) by {
        assert("Lint/Debugger"@.len() != "Layout/IndentationWidth"@.len());
    }
    assert("Lint/Debugger"@ != "Layout/AccessModifierIndentation"@) by {
        assert("Lint/Debugger"@.len() != "Layout/AccessModifierIndentation"@.len());
    }
    assert("Lint/Debugger"@ != "Layout/BeginEndAlignment"@) by {
        assert("Lint/Debugger"@.len() != "Layout/BeginEndAlignment"@.len());
    }
    assert("Lint/Debugger"@ != "Layout/DefEndAlignment"@) by {
        assert("Lint/Debugger"@.len() != "Layout/DefEndAlignment"@.len());
    }
    assert("Lint/Debugger"@ != "Layout/IndentationConsistency"@) by {
        assert("Lint/Debugger"@.len() != "Layout/IndentationConsistency"@.len());
    }
    assert("Lint/Debugger"@ != "Layout/IndentationStyle"@) by {
        assert("Lint/Debugger"@.len() != "Layout/IndentationStyle"@.len());
    }
    assert("Lint/Debugger"@ != "Layout/TrailingWhitespace"@) by {
        assert("Lint/Debugger"@.len() != "Layout/TrailingWhitespace"@.len());
    }
    assert("Lint/Debugger"@ != "Layout/TrailingEmptyLines"@) by {
        assert("Lint/Debugger"@.len() != "Layout/TrailingEmptyLines"@.len());
    }
    assert("Lint/Debugger"@ != "Layout/LeadingEmptyLines"@) by {
        assert("Lint/Debugger"@.len() != "Layout/LeadingEmptyLines"@.len());
    }
    assert("Lint/Debugger"@ != "Layout/EmptyLines"@) by {
        assert("Lint/Debugger"@.len() != "Layout/EmptyLines"@.len());
    }
    assert("fatal"@ != "error"@) by {
        assert("fatal"@[0] != "error"@[0]);
    }
    assert("warning"@ != "error"@) by {
        assert("warning"@.len() != "error"@.len());
    }
    assert("warning"@ != "fatal"@) by {
        assert("warning"@.len() != "fatal"@.len());
    }
    assert("warn"@ != "error"@) by {
        assert("warn"@.len() != "error"@.len());
    }
    assert("warn"@ != "fatal"@) by {
        assert("warn"@.len() != "fatal"@.len());
    }
    assert("warn"@ != "warning"@) by {
        assert("warn"@.len() != "warning"@.len());
    }
    assert("convention"@ != "error"@) by {
        assert("convention"@.len() != "error"@.len());
    }
    assert("convention"@ != "fatal"@) by {
        assert("convention"@.len() != "fatal"@.len());
    }
    assert("convention"@ != "warning"@) by {
        assert("convention"@.len() != "warning"@.len());
    }
    assert("convention"@ != "warn"@) by {
        assert("convention"@.len() != "warn"@.len());
    }
    assert("info"@ != "error"@) by {
        assert("info"@.len() != "error"@.len());
    }
    assert("info"@ != "fatal"@) by {
        assert("info"@.len() != "fatal"@.len());
    }
    assert("info"@ != "warning"@) by {
        assert("info"@.len() != "warning"@.len());
    }
    assert("info"@ != "warn"@) by {
        assert("info"@[0] != "warn"@[0]);
    }
    assert("info"@ != "convention"@) by {
        assert("info"@.len() != "convention"@.len());
    }
    assert("refactor"@ != "error"@) by {
        assert("refactor"@.len() != "error"@.len());
    }
    assert("refactor"@ != "fatal"@) by {
        assert("refactor"@.len() != "fatal"@.len());
    }
    assert("refactor"@ != "warning"@) by {
        assert("refactor"@.len() != "warning"@.len());
    }
    assert("refactor"@ != "warn"@) by {
        assert("refactor"@.len() != "warn"@.len());
    }
    assert("refactor"@ != "convention"@) by {
        assert("refactor"@.len() != "convention"@.len());
    }
    assert("refactor"@ != "info"@) by {
        assert("refactor"@.len() != "info"@.len());
    }
}

/// The configuration read from the first `k` cop settings, in order, over the defaults.
pub open spec fn spec_from_cops(cops: Seq<(String, CopConfig)>, k: int) -> Config
    decreases k,
{
    if k <= 0 {
        Config::spec_default()
    } else {
        apply_named(spec_from_cops(cops, k - 1), cops[k - 1].0@, cops[k - 1].1)
    }
}

/// The configuration `config` with the settings `cop` of the cop named `name` applied.
#[verifier::rlimit(40)]
fn apply_named_config(config: Config, name: &str, cop: &CopConfig) -> (c: Config)
    ensures
        c == apply_named(config, name@, *cop),
{
    let mut config = config;
        if str_eq(name, "Layout/EndAlignment") {
            let mut cfg = config.layout.end_alignment;
            apply_end_alignment(&mut cfg, cop);
            config.layout.end_alignment = cfg;
        } else if str_eq(name, "Layout/IndentationWidth") {
            let mut cfg = config.layout.indentation_width;
            apply_indentation_width(&mut cfg, cop);
            config.layout.indentation_width = cfg;
        } else if str_eq(name, "Layout/AccessModifierIndentation") {
            let mut cfg = config.layout.access_modifier_indentation;
            apply_access_modifier_indentation(&mut cfg, cop);
            config.layout.access_modifier_indentation = cfg;
        } else if str_eq(name, "Layout/BeginEndAlignment") {
            let mut cfg = config.layout.begin_end_alignment;
            apply_begin_end_alignment(&mut cfg, cop);
            config.layout.begin_end_alignment = cfg;
        } else if str_eq(name, "Layout/DefEndAlignment") {
            let mut cfg = config.layout.def_end_alignment;
            apply_def_end_alignment(&mut cfg, cop);
            config.layout.def_end_alignment = cfg;
        } else if str_eq(name, "Layout/IndentationConsistency") {
            let mut cfg = config.layout.indentation_consistency;
            apply_indentation_consistency(&mut cfg, cop);
            config.layout.indentation_consistency = cfg;
        } else if str_eq(name, "Layout/IndentationStyle") {
            let mut cfg = config.layout.indentation_style;
            apply_indentation_style(&mut cfg, cop);
            config.layout.indentation_style = cfg;
        } else if str_eq(name, "Layout/TrailingWhitespace") {
            let mut cfg = config.layout.trailing_whitespace;
            apply_trailing_whitespace(&mut cfg, cop);
            config.layout.trailing_whitespace = cfg;
        } else if str_eq(name, "Layout/TrailingEmptyLines") {
            let mut cfg = config.layout.trailing_empty_lines;
            apply_trailing_empty_lines(&mut cfg, cop);
            config.layout.trailing_empty_lines = cfg;
        } else if str_eq(name, "Layout/LeadingEmptyLines") {
            let mut cfg = config.layout.leading_empty_lines;
            apply_leading_empty_lines(&mut cfg, cop);
            config.layout.leading_empty_lines = cfg;
        } else if str_eq(name, "Layout/EmptyLines") {
            let mut cfg = config.layout.empty_lines;
            apply_empty_lines(&mut cfg, cop);
            config.layout.empty_lines = cfg;
        } else if str_eq(name, "Lint/Debugger") {
            let mut cfg = config.lint.debugger;
            apply_debugger(&mut cfg, cop);
            config.lint.debugger = cfg;
        }
    config
}

impl Config {
    /// Create a Config from a parsed RubocopYaml: the settings of each known cop are applied
    /// over the defaults, in order.
    pub fn from_rubocop_yaml(yaml: &RubocopYaml) -> (c: Config)
        ensures
            c == spec_from_cops(yaml.cops@, yaml.cops@.len() as int),
    {
        let mut config = Config::default();
        let mut i: usize = 0;
        while i < yaml.cops.len()
            invariant
                0 <= i <= yaml.cops@.len(),
                config == spec_from_cops(yaml.cops@, i as int),
            decreases yaml.cops@.len() - i,
        {
            let name = yaml.cops[i].0.as_str();
            let cop = &yaml.cops[i].1;
            config = apply_named_config(config, name, cop);
            i = i + 1;
        }
        config
    }
}

/// Apply base configuration (enabled, severity) to a config struct.
fn apply_base_config<T: HasBaseConfig>(config: &mut T, cop: &CopConfig)
    ensures
        *final(config) == spec_apply_base(*old(config), *cop),
{
    if let Some(enabled_val) = &cop.enabled {
        config.set_enabled(enabled_val.is_enabled());
    }
    if let Some(severity_str) = &cop.severity {
        if let Some(severity) = parse_severity(severity_str.as_str()) {
            config.set_severity(severity);
        }
    }
}

/// Helper to get a string value from cop options.
fn get_string_option(cop: &CopConfig, key: &str) -> (r: Option<String>)
    ensures
        match (r, spec_string_option(*cop, key@)) {
            (None, None) => true,
            (Some(a), Some(b)) => a@ == b,
            _ => false,
        },
{
    let mut i: usize = 0;
    assert(cop.options@.subrange(0, cop.options@.len() as int) =~= cop.options@);
    while i < cop.options.len()
        invariant
            0 <= i <= cop.options@.len(),
            find_option(cop.options@, key@) == find_option(cop.options@.subrange(i as int, cop.options@.len() as int), key@),
        decreases cop.options@.len() - i,
    {
        proof {
            let rest = cop.options@.subrange(i as int, cop.options@.len() as int);
            assert(rest.drop_first() =~= cop.options@.subrange(i + 1, cop.options@.len() as int));
        }
        if str_eq(cop.options[i].0.as_str(), key) {
            return match &cop.options[i].1 {
                OptionValue::String(s) => Some(s.clone()),
                _ => None,
            };
        }
        i = i + 1;
    }
    None
}

/// Helper to get an integer value from cop options.
fn get_int_option(cop: &CopConfig, key: &str) -> (r: Option<i64>)
    ensures
        r == spec_int_option(*cop, key@),
{
    let mut i: usize = 0;
    assert(cop.options@.subrange(0, cop.options@.len() as int) =~= cop.options@);
    while i < cop.options.len()
        invariant
            0 <= i <= cop.options@.len(),
            find_option(cop.options@, key@) == find_option(cop.options@.subrange(i as int, cop.options@.len() as int), key@),
        decreases cop.options@.len() - i,
    {
        proof {
            let rest = cop.options@.subrange(i as int, cop.options@.len() as int);
            assert(rest.drop_first() =~= cop.options@.subrange(i + 1, cop.options@.len() as int));
        }
        if str_eq(cop.options[i].0.as_str(), key) {
            return match &cop.options[i].1 {
                OptionValue::Integer(n) => Some(*n),
                _ => None,
            };
        }
        i = i + 1;
    }
    None
}

/// Parse severity from string.
fn parse_severity(s: &str) -> (r: Option<Severity>)
    ensures
        r == spec_severity_name(lowered(s@)),
{
    let l = to_lowercase(s);
    let l = l.as_str();
    if str_eq(l, "error") || str_eq(l, "fatal") {
        Some(Severity::Error)
    } else if str_eq(l, "warning") || str_eq(l, "warn") {
        Some(Severity::Warning)
    } else if str_eq(l, "convention") {
        Some(Severity::Convention)
    } else if str_eq(l, "info") || str_eq(l, "refactor") {
        Some(Severity::Convention)
    } else {
        None
    }
}

fn apply_end_alignment(config: &mut EndAlignmentConfig, cop: &CopConfig)
    ensures
        *final(config) == spec_apply_end_alignment(*old(config), *cop),
{
    apply_base_config(config, cop);
    if let Some(style) = get_string_option(cop, "EnforcedStyleAlignWith") {
        let l = to_lowercase(style.as_str());
        let l = l.as_str();
        config.enforced_style_align_with = if str_eq(l, "keyword") {
            EndAlignmentStyle::Keyword
        } else if str_eq(l, "variable") {
            EndAlignmentStyle::Variable
        } else if str_eq(l, "start_of_line") {
            EndAlignmentStyle::StartOfLine
        } else {
            config.enforced_style_align_with
        };
    }
}

fn apply_indentation_width(config: &mut IndentationWidthConfig, cop: &CopConfig)
    ensures
        *final(config) == spec_apply_indentation_width(*old(config), *cop),
{
    apply_base_config(config, cop);
    if let Some(width) = get_int_option(cop, "Width") {
        config.width = width as i32;
    }
}

fn apply_access_modifier_indentation(config: &mut AccessModifierIndentationConfig, cop: &CopConfig)
    ensures
        *final(config) == spec_apply_access_modifier_indentation(*old(config), *cop),
{
    apply_base_config(config, cop);
    if let Some(style) = get_string_option(cop, "EnforcedStyle") {
        let l = to_lowercase(style.as_str());
        let l = l.as_str();
        config.enforced_style = if str_eq(l, "indent") {
            AccessModifierStyle::Indent
        } else if str_eq(l, "outdent") {
            AccessModifierStyle::Outdent
        } else {
            config.enforced_style
        };
    }
    if let Some(width) = get_int_option(cop, "IndentationWidth") {
        config.indentation_width = Some(width as usize);
    }
}

fn apply_begin_end_alignment(config: &mut BeginEndAlignmentConfig, cop: &CopConfig)
    ensures
        *final(config) == spec_apply_begin_end_alignment(*old(config), *cop),
{
    apply_base_config(config, cop);
    if let Some(style) = get_string_option(cop, "EnforcedStyleAlignWith") {
        let l = to_lowercase(style.as_str());
        let l = l.as_str();
        config.enforced_style_align_with = if str_eq(l, "start_of_line") {
            BeginEndStyle::StartOfLine
        } else if str_eq(l, "begin") {
            BeginEndStyle::Begin
        } else {
            config.enforced_style_align_with
        };
    }
}

fn apply_def_end_alignment(config: &mut DefEndAlignmentConfig, cop: &CopConfig)
    ensures
        *final(config) == spec_apply_def_end_alignment(*old(config), *cop),
{
    apply_base_config(config, cop);
    if let Some(style) = get_string_option(cop, "EnforcedStyleAlignWith") {
        let l = to_lowercase(style.as_str());
        let l = l.as_str();
        config.enforced_style_align_with = if str_eq(l, "start_of_line") {
            DefEndStyle::StartOfLine
        } else if str_eq(l, "def") {
            DefEndStyle::Def
        } else {
            config.enforced_style_align_with
        };
    }
}

/// Whether `s`, with each space read as an underscore, is the text `lit`.
fn eq_with_underscores(s: &str, lit: &str) -> (r: bool)
    ensures
        r == (spaces_to_underscores(s@) == lit@),
{
    let n = s.unicode_len();
    if n != lit.unicode_len() {
        assert(spaces_to_underscores(s@).len() == s@.len());
        return false;
    }
    let mut k: usize = 0;
    while k < n
        invariant
            n == s@.len(),
            n == lit@.len(),
            0 <= k <= n,
            forall|j: int| 0 <= j < k ==> spaces_to_underscores(s@)[j] == lit@[j],
        decreases n - k,
    {
        let c = s.get_char(k);
        let d = if c == ' ' {
            '_'
        } else {
            c
        };
        if d != lit.get_char(k) {
            assert(spaces_to_underscores(s@)[k as int] != lit@[k as int]);
            return false;
        }
        k = k + 1;
    }
    assert(spaces_to_underscores(s@) =~= lit@);
    true
}

fn apply_indentation_consistency(config: &mut IndentationConsistencyConfig, cop: &CopConfig)
    ensures
        *final(config) == spec_apply_indentation_consistency(*old(config), *cop),
{
    apply_base_config(config, cop);
    if let Some(style) = get_string_option(cop, "EnforcedStyle") {
        let l = to_lowercase(style.as_str());
        let l = l.as_str();
        config.enforced_style = if eq_with_underscores(l, "normal") {
            IndentationConsistencyStyle::Normal
        } else if eq_with_underscores(l, "indented_internal_methods") {
            IndentationConsistencyStyle::IndentedInternalMethods
        } else {
            config.enforced_style
        };
    }
}

fn apply_indentation_style(config: &mut IndentationStyleConfig, cop: &CopConfig)
    ensures
        *final(config) == spec_apply_indentation_style(*old(config), *cop),
{
    apply_base_config(config, cop);
    if let Some(style) = get_string_option(cop, "EnforcedStyle") {
        let l = to_lowercase(style.as_str());
        let l = l.as_str();
        config.enforced_style = if str_eq(l, "spaces") {
            IndentationStyleStyle::Spaces
        } else if str_eq(l, "tabs") {
            IndentationStyleStyle::Tabs
        } else {
            config.enforced_style
        };
    }
    if let Some(width) = get_int_option(cop, "IndentationWidth") {
        config.indentation_width = width as usize;
    }
}

fn apply_trailing_whitespace(config: &mut TrailingWhitespaceConfig, cop: &CopConfig)
    ensures
        *final(config) == spec_apply_trailing_whitespace(*old(config), *cop),
{
    apply_base_config(config, cop);
}

fn apply_trailing_empty_lines(config: &mut TrailingEmptyLinesConfig, cop: &CopConfig)
    ensures
        *final(config) == spec_apply_trailing_empty_lines(*old(config), *cop),
{
    apply_base_config(config, cop);
    if let Some(style) = get_string_option(cop, "EnforcedStyle") {
        let l = to_lowercase(style.as_str());
        let l = l.as_str();
        config.enforced_style = if str_eq(l, "final_newline") {
            TrailingEmptyLinesStyle::FinalNewline
        } else if str_eq(l, "final_blank_line") {
            TrailingEmptyLinesStyle::FinalBlankLine
        } else {
            config.enforced_style
        };
    }
}

fn apply_leading_empty_lines(config: &mut LeadingEmptyLinesConfig, cop: &CopConfig)
    ensures
        *final(config) == spec_apply_leading_empty_lines(*old(config), *cop),
{
    apply_base_config(config, cop);
}

fn apply_empty_lines(config: &mut EmptyLinesConfig, cop: &CopConfig)
    ensures
        *final(config) == spec_apply_empty_lines(*old(config), *cop),
{
    apply_base_config(config, cop);
}

fn apply_debugger(config: &mut DebuggerConfig, cop: &CopConfig)
    ensures
        *final(config) == spec_apply_debugger(*old(config), *cop),
{
    apply_base_config(config, cop);
}

} // verus!
