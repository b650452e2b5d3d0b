//! The lint rules over a syntax tree.

pub mod debugger;
