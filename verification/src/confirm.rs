//! The yes-or-no question.

use vstd::prelude::*;
use vstd::string::StrSliceExecFns;

verus! {

/// What a line of input answers: yes if it starts with `y` or `Y`, else
/// `default`.
pub open spec fn answer(input: Seq<char>, default: bool) -> bool {
    if input.len() > 0 && (input[0] == 'y' || input[0] == 'Y') {
        true
    } else {
        default
    }
}

/// Reads the answer off a line of input: `true` if the line starts with `y` or
/// `Y`; `default` if it starts with anything else or is empty.
pub fn handle_yes_no(input: &str, default: bool) -> (r: bool)
    ensures
        r == answer(input@, default),
{
    if input.is_empty() {
        default
    } else {
        let first = input.get_char(0);
        if first == 'y' || first == 'Y' {
            true
        } else {
            default
        }
    }
}

} // verus!
