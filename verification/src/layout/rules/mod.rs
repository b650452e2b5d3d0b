//! The layout rules on raw bytes.

pub mod trailing_whitespace;
