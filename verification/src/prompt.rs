//! What the user answers when asked whether to go on.

use crate::text::{chars_eq, to_chars, trim, trimmed};
use vstd::prelude::*;

verus! {

/// What an answer means: an empty one, "go on"; `q`, "stop"; any other,
/// nothing, and the question is asked again. White space around the answer
/// does not count.
pub open spec fn answer_of(input: Seq<char>) -> Option<bool> {
    if trim(input).len() == 0 {
        Some(true)
    } else if trim(input) == seq!['q'] {
        Some(false)
    } else {
        None
    }
}

pub fn read_answer(input: &str) -> (answer: Option<bool>)
    ensures
        answer == answer_of(input@),
{
    let given = trimmed(&to_chars(input));
    if given.len() == 0 {
        return Some(true);
    }
    let mut quit: Vec<char> = Vec::new();
    quit.push('q');
    assert(quit@ =~= seq!['q']);
    if chars_eq(&given, &quit) {
        Some(false)
    } else {
        None
    }
}

} // verus!
