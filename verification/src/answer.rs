//! Reading a typed answer to a yes-or-no question.

use vstd::prelude::*;

verus! {

/// Whether `answer` is the single letter given, in lower or upper case.
pub open spec fn is_letter(answer: Seq<char>, lower: char, upper: char) -> bool {
    answer == seq![lower] || answer == seq![upper]
}

fn says(answer: &str, lower: char, upper: char) -> (yes: bool)
    ensures
        yes == is_letter(answer@, lower, upper),
{
    if answer.unicode_len() != 1 {
        return false;
    }
    let letter = answer.get_char(0);
    assert(answer@ =~= seq![letter]);
    letter == lower || letter == upper
}

/// Whether `answer` says no: it is the letter n, in either case, and nothing
/// else. Every other answer leaves a default in force.
pub fn is_no(answer: &str) -> (no: bool)
    ensures
        no == is_letter(answer@, 'n', 'N'),
{
    says(answer, 'n', 'N')
}

/// Whether `answer` says yes: it is the letter y, in either case, and nothing
/// else.
pub fn is_yes(answer: &str) -> (yes: bool)
    ensures
        yes == is_letter(answer@, 'y', 'Y'),
{
    says(answer, 'y', 'Y')
}

} // verus!
