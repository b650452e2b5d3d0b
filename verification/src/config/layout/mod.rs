//! Layout cop configurations.

pub mod access_modifier_indentation;
pub mod begin_end_alignment;
pub mod def_end_alignment;
pub mod empty_lines;
pub mod end_alignment;
pub mod indentation_consistency;
pub mod indentation_style;
pub mod indentation_width;
pub mod leading_empty_lines;
pub mod trailing_empty_lines;
pub mod trailing_whitespace;

pub use access_modifier_indentation::AccessModifierIndentationConfig;
pub use begin_end_alignment::BeginEndAlignmentConfig;
pub use def_end_alignment::DefEndAlignmentConfig;
pub use empty_lines::EmptyLinesConfig;
pub use end_alignment::EndAlignmentConfig;
pub use indentation_consistency::IndentationConsistencyConfig;
pub use indentation_style::IndentationStyleConfig;
pub use indentation_width::IndentationWidthConfig;
pub use leading_empty_lines::LeadingEmptyLinesConfig;
pub use trailing_empty_lines::TrailingEmptyLinesConfig;
pub use trailing_whitespace::TrailingWhitespaceConfig;

use vstd::prelude::*;

verus! {

/// Layout cop configurations.
#[derive(Debug, Clone, Copy, PartialEq, Eq, Structural)]
pub struct LayoutConfig {
    pub access_modifier_indentation: AccessModifierIndentationConfig,
    pub begin_end_alignment: BeginEndAlignmentConfig,
    pub def_end_alignment: DefEndAlignmentConfig,
    pub empty_lines: EmptyLinesConfig,
    pub end_alignment: EndAlignmentConfig,
    pub indentation_consistency: IndentationConsistencyConfig,
    pub indentation_style: IndentationStyleConfig,
    pub indentation_width: IndentationWidthConfig,
    pub leading_empty_lines: LeadingEmptyLinesConfig,
    pub trailing_empty_lines: TrailingEmptyLinesConfig,
    pub trailing_whitespace: TrailingWhitespaceConfig,
}

impl LayoutConfig {
    /// Every layout cop at its default.
    pub open spec fn spec_default() -> LayoutConfig {
        LayoutConfig {
            access_modifier_indentation: AccessModifierIndentationConfig::spec_default(),
            begin_end_alignment: BeginEndAlignmentConfig::spec_default(),
            def_end_alignment: DefEndAlignmentConfig::spec_default(),
            empty_lines: EmptyLinesConfig::spec_default(),
            end_alignment: EndAlignmentConfig::spec_default(),
            indentation_consistency: IndentationConsistencyConfig::spec_default(),
            indentation_style: IndentationStyleConfig::spec_default(),
            indentation_width: IndentationWidthConfig::spec_default(),
            leading_empty_lines: LeadingEmptyLinesConfig::spec_default(),
            trailing_empty_lines: TrailingEmptyLinesConfig::spec_default(),
            trailing_whitespace: TrailingWhitespaceConfig::spec_default(),
        }
    }
}

impl Default for LayoutConfig {
    fn default() -> (c: LayoutConfig)
        ensures
            c == LayoutConfig::spec_default(),
    {
        LayoutConfig {
            access_modifier_indentation: AccessModifierIndentationConfig::default(),
            begin_end_alignment: BeginEndAlignmentConfig::default(),
            def_end_alignment: DefEndAlignmentConfig::default(),
            empty_lines: EmptyLinesConfig::default(),
            end_alignment: EndAlignmentConfig::default(),
            indentation_consistency: IndentationConsistencyConfig::default(),
            indentation_style: IndentationStyleConfig::default(),
            indentation_width: IndentationWidthConfig::default(),
            leading_empty_lines: LeadingEmptyLinesConfig::default(),
            trailing_empty_lines: TrailingEmptyLinesConfig::default(),
            trailing_whitespace: TrailingWhitespaceConfig::default(),
        }
    }
}

} // verus!
