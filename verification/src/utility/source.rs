//! Character classes of source text.
use vstd::prelude::*;

verus! {

/// A blank character in RuboCop's sense (`[[:blank:]]`): space, tab or the
/// fullwidth space U+3000. A carriage return is not blank.
pub open spec fn spec_is_blank(c: char) -> bool {
    c == ' ' || c == '\t' || c == '\u{3000}'
}

/// Check if a character is a blank character (RuboCop's `[[:blank:]]`).
pub fn is_blank(c: char) -> (r: bool)
    ensures
        r == spec_is_blank(c),
{
    c == ' ' || c == '\t' || c == '\u{3000}'
}

} // verus!
