//! Lint checks over a syntax tree, reported with the line and column of their start.
pub mod rules;

pub use crate::layout::Diagnostic;
