//! Layout rules.

pub mod begin_end_alignment;
pub mod def_end_alignment;
pub mod empty_lines;
pub mod end_alignment;
pub mod end_keyword_alignment;
pub mod indentation_consistency;
pub mod indentation_style;
pub mod leading_empty_lines;
pub mod trailing_empty_lines;
pub mod trailing_whitespace;
