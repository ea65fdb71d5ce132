//! The collection of entries and its naming rules: every entry has a long
//! name, and no name, long or short, belongs to two entries.

use crate::entry::{answers_to, Entry};
use vstd::prelude::*;
use vstd::string::StringExecFns;
use vstd::utf8::encode_utf8;

verus! {

/// Why a name cannot be given to a new entry.
#[derive(Clone, Copy, Debug, PartialEq, Eq, Structural)]
pub enum NameError {
    /// A long name is wanted and none was given.
    Empty,
    /// An entry of the collection already goes by this name.
    InUse,
}

/// Whether some entry of `entries` goes by `name`.
pub open spec fn name_in_use(entries: Seq<Entry>, name: Seq<char>) -> bool {
    exists|i: int| 0 <= i < entries.len() && answers_to(#[trigger] entries[i]@, name)
}

/// The naming rules of a collection: every long name is there, and no name,
/// long or short, stands twice: neither the long name nor a short name that
/// is there is a name of another entry, and a short name that is there is
/// not the entry's own long name.
pub open spec fn well_named(entries: Seq<Entry>) -> bool {
    &&& forall|i: int|
        0 <= i < entries.len() ==> {
            &&& (#[trigger] entries[i])@.long.len() > 0
            &&& entries[i]@.short.len() > 0 ==> entries[i]@.short != entries[i]@.long
        }
    &&& forall|i: int, j: int|
        0 <= i < entries.len() && 0 <= j < entries.len() && i != j ==> {
            &&& !answers_to((#[trigger] entries[j])@, (#[trigger] entries[i])@.long)
            &&& entries[i]@.short.len() > 0 ==> !answers_to(entries[j]@, entries[i]@.short)
        }
}

/// What is to be said of `long` as the long name of a new entry.
pub open spec fn long_verdict(entries: Seq<Entry>, long: Seq<char>) -> Result<(), NameError> {
    if long.len() == 0 {
        Err(NameError::Empty)
    } else if name_in_use(entries, long) {
        Err(NameError::InUse)
    } else {
        Ok(())
    }
}

/// What is to be said of `short` as the short name of a new entry whose long
/// name is `long`: it may be left out; where it is there, it is neither that
/// long name nor a name in use.
pub open spec fn short_verdict(
    entries: Seq<Entry>,
    long: Seq<char>,
    short: Seq<char>,
) -> Result<(), NameError> {
    if short.len() > 0 && (short == long || name_in_use(entries, short)) {
        Err(NameError::InUse)
    } else {
        Ok(())
    }
}

/// What is to be said of taking `entry` into `entries`: its long name is
/// judged first, then its short name.
pub open spec fn admission(entries: Seq<Entry>, entry: Entry) -> Result<(), NameError> {
    if long_verdict(entries, entry@.long).is_err() {
        long_verdict(entries, entry@.long)
    } else {
        short_verdict(entries, entry@.long, entry@.short)
    }
}

/// Finds the first entry that goes by `name`, by its position.
pub fn find(entries: &Vec<Entry>, name: &str) -> (found: Option<usize>)
    ensures
        match found {
            Some(at) => {
                &&& at < entries@.len()
                &&& answers_to(entries@[at as int]@, name@)
                &&& forall|j: int| 0 <= j < at ==> !answers_to((#[trigger] entries@[j])@, name@)
            },
            None => !name_in_use(entries@, name@),
        },
{
    let wanted = String::from_str(name);
    let mut at: usize = 0;
    while at < entries.len()
        invariant
            at <= entries@.len(),
            wanted@ == name@,
            forall|j: int| 0 <= j < at ==> !answers_to((#[trigger] entries@[j])@, name@),
        decreases entries@.len() - at,
    {
        if entries[at].answers_to(&wanted) {
            return Some(at);
        }
        at = at + 1;
    }
    None
}

/// Judges `long` as the long name of a new entry.
pub fn vet_long(entries: &Vec<Entry>, long: &str) -> (verdict: Result<(), NameError>)
    ensures
        verdict == long_verdict(entries@, long@),
{
    if long.is_empty() {
        Err(NameError::Empty)
    } else if find(entries, long).is_some() {
        Err(NameError::InUse)
    } else {
        Ok(())
    }
}

/// Judges `short` as the short name of a new entry whose long name is `long`.
pub fn vet_short(entries: &Vec<Entry>, long: &str, short: &str) -> (verdict: Result<
    (),
    NameError,
>)
    ensures
        verdict == short_verdict(entries@, long@, short@),
{
    if short.is_empty() {
        Ok(())
    } else if String::from_str(short) == String::from_str(long) {
        Err(NameError::InUse)
    } else if find(entries, short).is_some() {
        Err(NameError::InUse)
    } else {
        Ok(())
    }
}

/// Takes `entry` into the collection, at its end, if its names are free. The
/// naming rules carry over from the old collection to the new one.
pub fn insert(entries: &mut Vec<Entry>, entry: Entry) -> (verdict: Result<(), NameError>)
    ensures
        verdict == admission(old(entries)@, entry),
        verdict.is_ok() ==> final(entries)@ == old(entries)@.push(entry),
        verdict.is_err() ==> final(entries)@ == old(entries)@,
        well_named(old(entries)@) ==> well_named(final(entries)@),
{
    match vet_long(entries, entry.long.as_str()) {
        Ok(()) => {},
        Err(e) => { return Err(e); },
    }
    match vet_short(entries, entry.long.as_str(), entry.short.as_str()) {
        Ok(()) => {},
        Err(e) => { return Err(e); },
    }
    proof {
        if well_named(entries@) {
            lemma_admitted_keeps_names(entries@, entry);
        }
    }
    entries.push(entry);
    Ok(())
}

/// An entry that is admitted leaves the naming rules in force.
proof fn lemma_admitted_keeps_names(entries: Seq<Entry>, entry: Entry)
    requires
        well_named(entries),
        admission(entries, entry).is_ok(),
    ensures
        well_named(entries.push(entry)),
{
    let grown = entries.push(entry);
    let last = entries.len() as int;
    assert forall|i: int, j: int|
        0 <= i < grown.len() && 0 <= j < grown.len() && i != j implies {
        &&& !answers_to((#[trigger] grown[j])@, (#[trigger] grown[i])@.long)
        &&& grown[i]@.short.len() > 0 ==> !answers_to(grown[j]@, grown[i]@.short)
    } by {
        if i == last {
            assert(answers_to(entries[j]@, entry@.long) ==> name_in_use(entries, entry@.long));
            assert(answers_to(entries[j]@, entry@.short) ==> name_in_use(entries, entry@.short));
        } else if j == last {
            assert(answers_to(entries[i]@, entry@.long) ==> name_in_use(entries, entry@.long));
            assert(answers_to(entries[i]@, entry@.short) ==> name_in_use(entries, entry@.short));
        }
    }
}

/// Takes the entry at place `at` out of the collection and hands it back, or
/// nothing where there is no such place. The naming rules carry over.
pub fn remove(entries: &mut Vec<Entry>, at: usize) -> (taken: Option<Entry>)
    ensures
        taken.is_some() <==> at < old(entries)@.len(),
        taken matches Some(entry) ==> entry == old(entries)@[at as int] && final(entries)@ == old(
            entries,
        )@.remove(at as int),
        taken.is_none() ==> final(entries)@ == old(entries)@,
        well_named(old(entries)@) ==> well_named(final(entries)@),
{
    if at >= entries.len() {
        return None;
    }
    proof {
        if well_named(entries@) {
            lemma_removal_keeps_names(entries@, at as int);
        }
    }
    Some(entries.remove(at))
}

/// Taking an entry out leaves the naming rules in force.
proof fn lemma_removal_keeps_names(entries: Seq<Entry>, at: int)
    requires
        well_named(entries),
        0 <= at < entries.len(),
    ensures
        well_named(entries.remove(at)),
{
    let rest = entries.remove(at);
    assert forall|i: int| 0 <= i < rest.len() implies {
        &&& (#[trigger] rest[i])@.long.len() > 0
        &&& rest[i]@.short.len() > 0 ==> rest[i]@.short != rest[i]@.long
    } by {
        let from = if i < at { i } else { i + 1 };
        assert(rest[i] == entries[from]);
    }
    assert forall|i: int, j: int|
        0 <= i < rest.len() && 0 <= j < rest.len() && i != j implies {
        &&& !answers_to((#[trigger] rest[j])@, (#[trigger] rest[i])@.long)
        &&& rest[i]@.short.len() > 0 ==> !answers_to(rest[j]@, rest[i]@.short)
    } by {
        let from_i = if i < at { i } else { i + 1 };
        let from_j = if j < at { j } else { j + 1 };
        assert(rest[i] == entries[from_i]);
        assert(rest[j] == entries[from_j]);
    }
}

/// Whether `a` comes before `b` or equals it from place `from` on, byte by
/// byte: at the first place where they differ the smaller byte decides, and
/// the one that ends first comes first.
pub open spec fn bytes_le_from(a: Seq<u8>, b: Seq<u8>, from: int) -> bool
    decreases a.len() - from,
{
    if from < 0 || from >= a.len() {
        true
    } else if from >= b.len() {
        false
    } else if a[from] != b[from] {
        a[from] < b[from]
    } else {
        bytes_le_from(a, b, from + 1)
    }
}

/// Whether the name `a` comes before the name `b` or equals it, in the order
/// of strings: by their UTF-8 bytes.
pub open spec fn name_le(a: Seq<char>, b: Seq<char>) -> bool {
    bytes_le_from(encode_utf8(a), encode_utf8(b), 0)
}

/// Whether the entries stand in the order of their long names.
pub open spec fn sorted_by_long(entries: Seq<Entry>) -> bool {
    forall|i: int, j: int|
        0 <= i < j < entries.len() ==> name_le(
            (#[trigger] entries[i])@.long,
            (#[trigger] entries[j])@.long,
        )
}

/// Of two byte strings one comes before the other or equals it.
pub proof fn lemma_bytes_le_total(a: Seq<u8>, b: Seq<u8>, from: int)
    requires
        0 <= from,
    ensures
        bytes_le_from(a, b, from) || bytes_le_from(b, a, from),
    decreases a.len() - from,
{
    if from < a.len() && from < b.len() && a[from] == b[from] {
        lemma_bytes_le_total(a, b, from + 1);
    }
}

/// What comes before something that comes before a third comes before the
/// third.
pub proof fn lemma_bytes_le_transitive(a: Seq<u8>, b: Seq<u8>, c: Seq<u8>, from: int)
    requires
        0 <= from,
        bytes_le_from(a, b, from),
        bytes_le_from(b, c, from),
    ensures
        bytes_le_from(a, c, from),
    decreases a.len() - from,
{
    if from < a.len() && from < b.len() && from < c.len() && a[from] == b[from] && b[from]
        == c[from] {
        lemma_bytes_le_transitive(a, b, c, from + 1);
    }
}

/// Tells whether the name `a` comes before the name `b` or equals it.
pub fn comes_first(a: &str, b: &str) -> (yes: bool)
    ensures
        yes == name_le(a@, b@),
{
    let left = a.as_bytes();
    let right = b.as_bytes();
    let mut at: usize = 0;
    while at < left.len() && at < right.len() && left[at] == right[at]
        invariant
            at <= left@.len(),
            at <= right@.len(),
            bytes_le_from(left@, right@, 0) == bytes_le_from(left@, right@, at as int),
        decreases left@.len() - at,
    {
        at = at + 1;
    }
    if at >= left.len() {
        true
    } else if at >= right.len() {
        false
    } else {
        left[at] < right[at]
    }
}

/// Moving one entry to another place leaves the naming rules in force.
proof fn lemma_move_keeps_names(entries: Seq<Entry>, from: int, to: int)
    requires
        well_named(entries),
        0 <= to <= from < entries.len(),
    ensures
        well_named(entries.remove(from).insert(to, entries[from])),
{
    let moved = entries.remove(from).insert(to, entries[from]);
    let origin = |k: int|
        if k < to || k > from {
            k
        } else if k == to {
            from
        } else {
            k - 1
        };
    assert forall|i: int| 0 <= i < moved.len() implies {
        &&& (#[trigger] moved[i])@.long.len() > 0
        &&& moved[i]@.short.len() > 0 ==> moved[i]@.short != moved[i]@.long
    } by {
        assert(moved[i] == entries[origin(i)]);
    }
    assert forall|i: int, j: int|
        0 <= i < moved.len() && 0 <= j < moved.len() && i != j implies {
        &&& !answers_to((#[trigger] moved[j])@, (#[trigger] moved[i])@.long)
        &&& moved[i]@.short.len() > 0 ==> !answers_to(moved[j]@, moved[i]@.short)
    } by {
        assert(moved[i] == entries[origin(i)]);
        assert(moved[j] == entries[origin(j)]);
        assert(origin(i) != origin(j));
    }
}

/// Moving one entry to another place keeps the same entries, each as often
/// as before.
proof fn lemma_move_keeps_entries(entries: Seq<Entry>, from: int, to: int)
    requires
        0 <= to <= from < entries.len(),
    ensures
        entries.remove(from).insert(to, entries[from]).to_multiset() == entries.to_multiset(),
{
    broadcast use vstd::multiset::group_multiset_axioms;

    let taken = entries.remove(from);
    let moved = taken.insert(to, entries[from]);
    vstd::seq_lib::to_multiset_remove(entries, from);
    vstd::seq_lib::to_multiset_insert(taken, to, entries[from]);
    vstd::seq_lib::to_multiset_contains(entries, entries[from]);
    assert(entries.contains(entries[from]));
    assert(moved.to_multiset() =~= entries.to_multiset());
}

/// Puts the entries in the order of their long names. The entries are the
/// same as before, each as often as before, and the naming rules carry over.
pub fn sort_by_long(entries: &mut Vec<Entry>)
    ensures
        sorted_by_long(final(entries)@),
        final(entries)@.to_multiset() == old(entries)@.to_multiset(),
        final(entries)@.len() == old(entries)@.len(),
        well_named(old(entries)@) ==> well_named(final(entries)@),
{
    let mut done: usize = 0;
    while done < entries.len()
        invariant
            done <= entries@.len(),
            sorted_by_long(entries@.take(done as int)),
            entries@.to_multiset() == old(entries)@.to_multiset(),
            entries@.len() == old(entries)@.len(),
            well_named(old(entries)@) ==> well_named(entries@),
        decreases entries@.len() - done,
    {
        let mut to: usize = 0;
        while to < done && comes_first(entries[to].long.as_str(), entries[done].long.as_str())
            invariant
                to <= done < entries@.len(),
                forall|k: int|
                    0 <= k < to ==> name_le(
                        (#[trigger] entries@[k])@.long,
                        entries@[done as int]@.long,
                    ),
            decreases done - to,
        {
            to = to + 1;
        }
        let ghost before = entries@;
        if to < done {
            let moved = entries.remove(done);
            entries.insert(to, moved);
            proof {
                lemma_move_keeps_entries(before, done as int, to as int);
                if well_named(before) {
                    lemma_move_keeps_names(before, done as int, to as int);
                }
            }
        }
        proof {
            let after = entries@.take(done as int + 1);
            let sorted = before.take(done as int);
            let name = before[done as int]@.long;
            assert forall|i: int, j: int| 0 <= i < j < after.len() implies name_le(
                (#[trigger] after[i])@.long,
                (#[trigger] after[j])@.long,
            ) by {
                if j == to {
                    assert(after[i] == before[i]);
                } else if i == to {
                    assert(after[j] == sorted[j - 1]);
                    assert(before[to as int] == sorted[to as int]);
                    lemma_bytes_le_total(
                        encode_utf8(before[to as int]@.long),
                        encode_utf8(name),
                        0,
                    );
                    if j - 1 > to {
                        lemma_bytes_le_transitive(
                            encode_utf8(name),
                            encode_utf8(sorted[to as int]@.long),
                            encode_utf8(sorted[j - 1]@.long),
                            0,
                        );
                    }
                } else {
                    let from_i = if i < to { i } else { i - 1 };
                    let from_j = if j < to { j } else { j - 1 };
                    assert(after[i] == sorted[from_i]);
                    assert(after[j] == sorted[from_j]);
                }
            }
        }
        done = done + 1;
    }
    assert(entries@.take(done as int) =~= entries@);
}

} // verus!
