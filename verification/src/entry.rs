//! The unit of storage: one named secret with its salt and payload.

use vstd::prelude::*;
use vstd::string::StringExecFns;

verus! {

/// Length of an entry's salt in bytes.
pub const SALT_LEN: usize = 16;

/// One stored secret, sealed.
///
/// `long`, `short` and `extra` are kept in the clear and are bound to the
/// payload, which is ciphertext followed by its tag. An entry comes out of
/// sealing a `FreshEntry`; there is no way to seal an entry again.
#[derive(Clone, Debug, PartialEq, Eq)]
pub struct Entry {
    /// The name the entry is shown and found by. A collection wants it
    /// non-empty and its own.
    pub long: String,
    /// A second, shorter name, or empty.
    pub short: String,
    /// A free note.
    pub extra: String,
    /// Random bytes drawn when the entry is made. With the passphrase they
    /// give the entry a key of its own.
    pub salt: [u8; SALT_LEN],
    /// The payload: ciphertext, then the tag.
    pub sealed: Vec<u8>,
}

/// A secret that has not been sealed yet.
///
/// It holds what an entry holds, with the payload still in the clear. Sealing
/// takes it by value and it cannot be copied, so one fresh entry is sealed at
/// most once: its salt, and with it its key, serves one payload.
#[derive(Debug, PartialEq, Eq)]
pub struct FreshEntry {
    /// The name the entry is to be shown and found by.
    pub long: String,
    /// A second, shorter name, or empty.
    pub short: String,
    /// A free note.
    pub extra: String,
    /// The salt of the entry to be.
    pub salt: [u8; SALT_LEN],
    /// The payload in the clear.
    pub secret: Vec<u8>,
}

/// What an entry holds, as mathematical sequences.
pub struct EntryView {
    pub long: Seq<char>,
    pub short: Seq<char>,
    pub extra: Seq<char>,
    pub salt: Seq<u8>,
    pub sealed: Seq<u8>,
}

impl View for Entry {
    type V = EntryView;

    open spec fn view(&self) -> EntryView {
        EntryView {
            long: self.long@,
            short: self.short@,
            extra: self.extra@,
            salt: self.salt@,
            sealed: self.sealed@,
        }
    }
}

impl View for FreshEntry {
    type V = EntryView;

    open spec fn view(&self) -> EntryView {
        EntryView {
            long: self.long@,
            short: self.short@,
            extra: self.extra@,
            salt: self.salt@,
            sealed: self.secret@,
        }
    }
}

/// Fills a salt from `rand::thread_rng` with `fill`.
///
/// Trusted: nothing. Which bytes come back is chance.
#[verifier::external_body]
fn random_salt() -> [u8; SALT_LEN] {
    let mut salt = [0u8; SALT_LEN];
    rand::Rng::fill(&mut rand::thread_rng(), &mut salt);
    salt
}

/// Whether `entry` goes by `name`: it is the entry's long or its short name.
pub open spec fn answers_to(entry: EntryView, name: Seq<char>) -> bool {
    name == entry.long || name == entry.short
}

/// The line that shows an entry in a listing: a dash and the long name, then
/// the short name in brackets if there is one, then a colon and the note if
/// there is one.
pub open spec fn listing_of(entry: EntryView) -> Seq<char> {
    seq!['-', ' '] + entry.long + (if entry.short.len() == 0 {
        Seq::<char>::empty()
    } else {
        seq![' ', '('] + entry.short + seq![')']
    }) + (if entry.extra.len() == 0 {
        Seq::<char>::empty()
    } else {
        seq![':', ' '] + entry.extra
    })
}

impl FreshEntry {
    /// A fresh entry under the salt given. The salt must not have served
    /// another entry: that is for the caller to see to.
    pub fn with_salt(
        long: String,
        short: String,
        extra: String,
        salt: [u8; SALT_LEN],
        secret: Vec<u8>,
    ) -> (fresh: FreshEntry)
        ensures
            fresh.long == long,
            fresh.short == short,
            fresh.extra == extra,
            fresh.salt == salt,
            fresh.secret == secret,
    {
        FreshEntry { long, short, extra, salt, secret }
    }

    /// A fresh entry under a salt of its own, drawn by chance.
    pub fn new(long: String, short: String, extra: String, secret: Vec<u8>) -> (fresh: FreshEntry)
        ensures
            fresh.long == long,
            fresh.short == short,
            fresh.extra == extra,
            fresh.secret == secret,
    {
        FreshEntry::with_salt(long, short, extra, random_salt(), secret)
    }
}

impl Entry {
    /// Whether this entry goes by `name`.
    pub fn answers_to(&self, name: &String) -> (yes: bool)
        ensures
            yes == answers_to(self@, name@),
    {
        *name == self.long || *name == self.short
    }

    /// The line that shows this entry in a listing. The payload and the salt
    /// are not part of it.
    pub fn listing(&self) -> (line: String)
        ensures
            line@ == listing_of(self@),
    {
        proof {
            reveal_strlit("- ");
            reveal_strlit(" (");
            reveal_strlit(")");
            reveal_strlit(": ");
        }
        let mut line = String::from_str("- ");
        assert(line@ =~= seq!['-', ' ']);
        line.append(self.long.as_str());
        if !self.short.as_str().is_empty() {
            line.append(" (");
            line.append(self.short.as_str());
            line.append(")");
            assert(line@ =~= seq!['-', ' '] + self@.long + (seq![' ', '('] + self@.short
                + seq![')']));
        } else {
            assert(line@ =~= seq!['-', ' '] + self@.long + Seq::<char>::empty());
        }
        if !self.extra.as_str().is_empty() {
            let ghost head = line@;
            line.append(": ");
            line.append(self.extra.as_str());
            assert(line@ =~= head + (seq![':', ' '] + self@.extra));
        } else {
            assert(line@ =~= line@ + Seq::<char>::empty());
        }
        line
    }
}

} // verus!
