//! Making up a fresh secret from a set of characters.

use vstd::prelude::*;
use vstd::string::StringExecFns;

verus! {

/// The lower-case letters.
pub const LOWER: &'static str = "abcdefghijklmnopqrstuvwxyz";

/// The upper-case letters.
pub const UPPER: &'static str = "ABCDEFGHIJKLMNOPQRSTUVWXYZ";

/// The digits.
pub const DIGIT: &'static str = "0123456789";

/// The punctuation marks of ASCII.
pub const SYMBOL: &'static str = "!\"#$%&'()*+,-./:;<=>?@[\\]^_`{|}~";

/// Length of a secret where none is asked for.
pub const STANDARD_LENGTH: usize = 32;

/// Draws a number below `bound` from `rand::thread_rng` with `gen_range`.
///
/// Trusted: the number is below `bound`. Which one it is, is chance.
#[verifier::external_body]
fn random_below(bound: usize) -> (n: usize)
    requires
        bound > 0,
    ensures
        n < bound,
{
    rand::Rng::gen_range(&mut rand::thread_rng(), 0, bound)
}

/// The characters to draw from: the chosen classes in the order lower, upper,
/// digit, symbol, then `more`.
pub open spec fn charset_of(
    lower: bool,
    upper: bool,
    digit: bool,
    symbol: bool,
    more: Seq<char>,
) -> Seq<char> {
    (if lower { LOWER@ } else { Seq::<char>::empty() })
        + (if upper { UPPER@ } else { Seq::<char>::empty() })
        + (if digit { DIGIT@ } else { Seq::<char>::empty() })
        + (if symbol { SYMBOL@ } else { Seq::<char>::empty() })
        + more
}

/// Puts together the characters to draw from.
pub fn charset(lower: bool, upper: bool, digit: bool, symbol: bool, more: &str) -> (set: String)
    ensures
        set@ == charset_of(lower, upper, digit, symbol, more@),
{
    let mut set = String::new();
    if lower {
        set.append(LOWER);
    }
    if upper {
        set.append(UPPER);
    }
    if digit {
        set.append(DIGIT);
    }
    if symbol {
        set.append(SYMBOL);
    }
    set.append(more);
    assert(set@ =~= charset_of(lower, upper, digit, symbol, more@));
    set
}

/// The characters of `set` at the places that `picks` names, in that order.
pub open spec fn picked(set: Seq<char>, picks: Seq<usize>) -> Seq<char> {
    Seq::new(picks.len(), |i: int| set[picks[i] as int])
}

/// Whether every place that `picks` names lies within `set`.
pub open spec fn picks_within(set: Seq<char>, picks: Seq<usize>) -> bool {
    forall|i: int| 0 <= i < picks.len() ==> (#[trigger] picks[i]) < set.len()
}

/// Spells the secret that `picks` selects from `set`, or nothing where a pick
/// lies outside the set.
pub fn pick(set: &str, picks: &Vec<usize>) -> (secret: Option<String>)
    ensures
        secret.is_some() <==> picks_within(set@, picks@),
        secret matches Some(s) ==> s@ == picked(set@, picks@),
{
    let size = set.unicode_len();
    let mut secret = String::new();
    let mut i: usize = 0;
    while i < picks.len()
        invariant
            i <= picks@.len(),
            size == set@.len(),
            secret@ == picked(set@, picks@.take(i as int)),
            picks_within(set@, picks@.take(i as int)),
        decreases picks@.len() - i,
    {
        let at = picks[i];
        if at >= size {
            assert(!picks_within(set@, picks@)) by {
                assert(picks@[i as int] >= set@.len());
            }
            return None;
        }
        let ghost before = secret@;
        secret.append(set.substring_char(at, at + 1));
        proof {
            let longer = picks@.take(i as int + 1);
            assert(set@.subrange(at as int, at as int + 1) =~= seq![set@[at as int]]);
            assert(secret@ =~= picked(set@, longer)) by {
                assert(before.len() == i);
                assert forall|k: int| 0 <= k < i + 1 implies secret@[k] == picked(
                    set@,
                    longer,
                )[k] by {
                    if k < i {
                        assert(picks@.take(i as int)[k] == longer[k]);
                    }
                }
            }
            assert(picks_within(set@, longer)) by {
                assert forall|k: int| 0 <= k < longer.len() implies (#[trigger] longer[k])
                    < set@.len() by {
                    if k < i {
                        assert(picks@.take(i as int)[k] == longer[k]);
                    }
                }
            }
        }
        i = i + 1;
    }
    assert(picks@.take(i as int) =~= picks@);
    Some(secret)
}

/// Makes up a secret of `length` characters, each drawn by chance from `set`.
/// With nothing to draw from, only the empty secret can be made.
pub fn generate(set: &str, length: usize) -> (secret: Option<String>)
    ensures
        secret.is_some() <==> set@.len() > 0 || length == 0,
        secret matches Some(s) ==> s@.len() == length && forall|i: int|
            0 <= i < length ==> set@.contains(#[trigger] s@[i]),
{
    let size = set.unicode_len();
    let mut picks: Vec<usize> = Vec::new();
    if length > 0 && size == 0 {
        return None;
    }
    let mut i: usize = 0;
    while i < length
        invariant
            i <= length,
            size == set@.len(),
            length > 0 ==> size > 0,
            picks@.len() == i,
            picks_within(set@, picks@),
        decreases length - i,
    {
        let at = random_below(size);
        picks.push(at);
        i = i + 1;
    }
    let secret = pick(set, &picks);
    proof {
        let s = secret.unwrap()@;
        assert forall|k: int| 0 <= k < length implies set@.contains(#[trigger] s[k]) by {
            assert(s[k] == set@[picks@[k] as int]);
        }
    }
    secret
}

} // verus!
