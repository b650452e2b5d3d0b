//! Lint rules.

pub mod debugger;
