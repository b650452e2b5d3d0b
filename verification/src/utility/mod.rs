//! Utilities shared by the rules.
pub mod access_modifier;
pub mod alignment;
pub mod source;
