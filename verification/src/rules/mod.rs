//! Rules for checking Ruby source code: `layout` for formatting, `lint` for code quality.

pub mod layout;
pub mod lint;
