//! Rules of the rank quiz.
use vstd::prelude::*;
use crate::utils::text::{chars_of, ranges_equal, trim_bounds, trimmed};

verus! {

/// Whether the command a user typed is the command that was asked for:
/// the two must be the same once the white space around them is set aside.
pub fn validate_command(user_input: &str, expected: &str) -> (valid: bool)
    ensures
        valid == (trimmed(user_input@) == trimmed(expected@)),
{
    let typed = chars_of(user_input);
    let wanted = chars_of(expected);
    let (a, b) = trim_bounds(&typed, 0, typed.len());
    let (c, d) = trim_bounds(&wanted, 0, wanted.len());
    proof {
        assert(typed@.subrange(0, typed.len() as int) =~= user_input@);
        assert(wanted@.subrange(0, wanted.len() as int) =~= expected@);
    }
    ranges_equal(&typed, a, b, &wanted, c, d)
}

} // verus!
