//! Character helpers: whether a character is blank.
pub use crate::utility::source::is_blank;
