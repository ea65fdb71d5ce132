//! The seal/open engine: turns a fresh entry's plaintext payload into
//! ciphertext and tag, once, and a sealed entry's payload back into the
//! plaintext, under a key derived from a passphrase.

use crate::aead::{
    chacha20_poly1305_opened, chacha20_poly1305_sealed, fits_one_nonce, open_in_place,
    seal_in_place, TAG_LEN,
};
use crate::binder::{associated_data, hash};
use crate::entry::{Entry, EntryView, FreshEntry};
use crate::error::VaultError;
use crate::kdf::{derivable, derived_key, Key};
use crate::nonce::{nonce_of, Counter};
use vstd::prelude::*;

verus! {

/// What sealing `entry`'s payload under `key` writes: ciphertext and tag,
/// made with the first nonce of a fresh sequencer and the entry's associated
/// data.
pub open spec fn sealed_under(key: Seq<u8>, entry: EntryView) -> Seq<u8> {
    chacha20_poly1305_sealed(key, nonce_of(0), associated_data(entry), entry.sealed)
}

/// What opening `entry`'s payload under `key` recovers, if anything.
pub open spec fn opened_under(key: Seq<u8>, entry: EntryView) -> Option<Seq<u8>> {
    chacha20_poly1305_opened(key, nonce_of(0), associated_data(entry), entry.sealed)
}

/// `before` with its payload replaced by `sealed`.
pub open spec fn with_payload(before: EntryView, sealed: Seq<u8>) -> EntryView {
    EntryView { sealed: sealed, ..before }
}

/// The outcome of opening `entry` with the passphrase `master`.
pub open spec fn opened_with(master: Seq<char>, entry: EntryView) -> Result<Seq<u8>, VaultError> {
    if !derivable(master, entry.salt) {
        Err(VaultError::KeyDerivation)
    } else {
        match opened_under(derived_key(master, entry.salt), entry) {
            Some(plain) => Ok(plain),
            None => Err(VaultError::Authentication),
        }
    }
}

/// Whether `got` is the executable form of the outcome `expected`.
pub open spec fn matches_outcome(
    got: Result<Vec<u8>, VaultError>,
    expected: Result<Seq<u8>, VaultError>,
) -> bool {
    match got {
        Ok(plain) => expected == Ok::<Seq<u8>, VaultError>(plain@),
        Err(e) => expected == Err::<Seq<u8>, VaultError>(e),
    }
}

/// What a successful `seal` with `master` makes of the fresh entry `before`:
/// an entry with the same fields and the payload sealed, which opens to the
/// old payload with `master`.
pub open spec fn sealed_from(before: EntryView, master: Seq<char>, after: EntryView) -> bool {
    &&& derivable(master, before.salt)
    &&& fits_one_nonce(before.sealed)
    &&& after == with_payload(
        before,
        sealed_under(derived_key(master, before.salt), before),
    )
    &&& after.sealed.len() == before.sealed.len() + TAG_LEN
    &&& opened_with(master, after) == Ok::<Seq<u8>, VaultError>(before.sealed)
}

/// Seals the payload of `fresh` under `key` and hands back the sealed entry.
///
/// Both are taken by value: this fresh entry is not sealed again, and this
/// key seals nothing else. Sealing succeeds exactly when the payload fits one
/// nonce. The entry then holds ciphertext and tag, everything else is as in
/// `fresh`, and opening it under the same key gives the plaintext back. On
/// failure the fresh entry comes back as it was.
pub fn seal_with_key(fresh: FreshEntry, key: Key) -> (result: Result<
    Entry,
    (FreshEntry, VaultError),
>)
    ensures
        result.is_ok() <==> fits_one_nonce(fresh@.sealed),
        result matches Ok(entry) ==> entry@ == with_payload(
            fresh@,
            sealed_under(key@, fresh@),
        ),
        result matches Ok(entry) ==> entry@.sealed.len() == fresh@.sealed.len() + TAG_LEN,
        result matches Ok(entry) ==> opened_under(key@, entry@) == Some(fresh@.sealed),
        result matches Err(back) ==> back.0@ == fresh@ && back.1 == VaultError::Seal,
{
    // A fresh counter always has its first nonce to give.
    let mut counter = Counter::new();
    let nonce = match counter.advance() {
        Ok(nonce) => nonce,
        Err(e) => { return Err((fresh, e)); },
    };
    let FreshEntry { long, short, extra, salt, secret } = fresh;
    let mut entry = Entry { long, short, extra, salt, sealed: secret };
    let aad = hash(&entry);
    match seal_in_place(&key, &nonce, aad.as_slice(), &mut entry.sealed) {
        Ok(()) => Ok(entry),
        Err(_) => {
            let Entry { long, short, extra, salt, sealed } = entry;
            Err((FreshEntry { long, short, extra, salt, secret: sealed }, VaultError::Seal))
        },
    }
}

/// Opens `entry`'s payload under `key`, on a copy: the entry is not touched.
///
/// Returns the plaintext exactly when the cipher authenticates the payload
/// under this key and the entry's present visible fields; every other case
/// is `Authentication`, with no word on which part did not fit.
pub fn open_with_key(entry: &Entry, key: &Key) -> (result: Result<Vec<u8>, VaultError>)
    ensures
        match result {
            Ok(plain) => opened_under(key@, entry@) == Some(plain@) && plain@.len() + TAG_LEN
                == entry@.sealed.len(),
            Err(e) => e == VaultError::Authentication && opened_under(key@, entry@).is_none(),
        },
        entry@.sealed.len() < TAG_LEN ==> result.is_err(),
{
    // The same nonce as in sealing: the first of a fresh counter.
    let mut counter = Counter::new();
    let nonce = match counter.advance() {
        Ok(nonce) => nonce,
        Err(e) => { return Err(e); },
    };
    let aad = hash(entry);
    let mut copy = entry.sealed.clone();
    match open_in_place(key, &nonce, aad.as_slice(), &mut copy) {
        Ok(plain) => Ok(plain),
        Err(_) => Err(VaultError::Authentication),
    }
}

/// Seals the payload of `fresh` under the key that `master` and the salt of
/// `fresh` derive, and hands back the sealed entry.
///
/// The fresh entry is taken by value, so it is sealed once: no second payload
/// meets the key of its salt. On failure it comes back as it was, with the
/// reason.
pub fn seal(fresh: FreshEntry, master: &str) -> (result: Result<Entry, (FreshEntry, VaultError)>)
    ensures
        result.is_ok() <==> derivable(master@, fresh@.salt) && fits_one_nonce(fresh@.sealed),
        result matches Ok(entry) ==> sealed_from(fresh@, master@, entry@),
        result matches Err(back) ==> back.0@ == fresh@ && back.1 == (if derivable(
            master@,
            fresh@.salt,
        ) {
            VaultError::Seal
        } else {
            VaultError::KeyDerivation
        }),
{
    let key = match crate::kdf::derive(master, fresh.salt.as_slice()) {
        Ok(key) => key,
        Err(e) => { return Err((fresh, e)); },
    };
    seal_with_key(fresh, key)
}

/// Opens `entry` with the passphrase `master` and returns the plaintext.
///
/// The entry is not touched, and the outcome depends on the entry and the
/// passphrase alone. A wrong passphrase, an altered payload and an altered
/// visible field all come back as the same `Authentication`.
pub fn open(entry: &Entry, master: &str) -> (result: Result<Vec<u8>, VaultError>)
    ensures
        matches_outcome(result, opened_with(master@, entry@)),
        result matches Ok(plain) ==> plain@.len() + TAG_LEN == entry@.sealed.len(),
{
    let key = match crate::kdf::derive(master, entry.salt.as_slice()) {
        Ok(key) => key,
        Err(e) => { return Err(e); },
    };
    open_with_key(entry, &key)
}

/// `payload` with bit `bit` of the byte at `at` inverted.
pub open spec fn with_bit_flipped(payload: Seq<u8>, at: int, bit: u8) -> Seq<u8> {
    payload.update(at, payload[at] ^ (1u8 << bit))
}

/// Round trip: what `seal` made with a passphrase, `open` turns back into the
/// plaintext with the same passphrase.
pub proof fn lemma_open_after_seal(
    before: EntryView,
    after: EntryView,
    master: Seq<char>,
    opened: Result<Vec<u8>, VaultError>,
)
    requires
        sealed_from(before, master, after),
        matches_outcome(opened, opened_with(master, after)),
    ensures
        opened.is_ok(),
        opened.unwrap()@ == before.sealed,
{
}

/// Opening is repeatable: two calls of `open` on the same entry with the same
/// passphrase have the same outcome, the same plaintext or the same error.
pub proof fn lemma_open_repeatable(
    entry: EntryView,
    master: Seq<char>,
    first: Result<Vec<u8>, VaultError>,
    second: Result<Vec<u8>, VaultError>,
)
    requires
        matches_outcome(first, opened_with(master, entry)),
        matches_outcome(second, opened_with(master, entry)),
    ensures
        first.is_ok() == second.is_ok(),
        first.is_ok() ==> first.unwrap()@ == second.unwrap()@,
        first.is_err() ==> first.unwrap_err() == second.unwrap_err(),
{
}

/// Wrong passphrase: where an entry was sealed with `right` and the cipher
/// does not authenticate it under the key of another passphrase `wrong`,
/// opening with `wrong` is reported as `Authentication`. A `wrong` that the
/// key derivation does not take is reported as `KeyDerivation` instead and is
/// left out here.
pub proof fn lemma_wrong_passphrase_reported(
    before: EntryView,
    after: EntryView,
    right: Seq<char>,
    wrong: Seq<char>,
    opened: Result<Vec<u8>, VaultError>,
)
    requires
        sealed_from(before, right, after),
        wrong != right,
        derivable(wrong, after.salt),
        opened_under(derived_key(wrong, after.salt), after).is_none(),
        matches_outcome(opened, opened_with(wrong, after)),
    ensures
        opened == Err::<Vec<u8>, VaultError>(VaultError::Authentication),
{
}

/// Metadata binding: where a visible field of a sealed entry was changed and
/// the cipher does not authenticate the payload with the associated data of
/// the changed fields, opening is reported as `Authentication`, even with the
/// passphrase that sealed the entry.
pub proof fn lemma_changed_fields_reported(
    before: EntryView,
    after: EntryView,
    changed: EntryView,
    master: Seq<char>,
    opened: Result<Vec<u8>, VaultError>,
)
    requires
        sealed_from(before, master, after),
        changed.salt == after.salt,
        changed.sealed == after.sealed,
        changed.long != after.long || changed.short != after.short || changed.extra
            != after.extra,
        opened_under(derived_key(master, after.salt), changed).is_none(),
        matches_outcome(opened, opened_with(master, changed)),
    ensures
        opened == Err::<Vec<u8>, VaultError>(VaultError::Authentication),
{
}

/// Tamper detection: inverting one bit of a sealed payload gives another
/// payload, and where the cipher does not authenticate that one, opening is
/// reported as `Authentication`, even with the passphrase that sealed the
/// entry.
pub proof fn lemma_flipped_bit_reported(
    before: EntryView,
    after: EntryView,
    master: Seq<char>,
    at: int,
    bit: u8,
    opened: Result<Vec<u8>, VaultError>,
)
    requires
        sealed_from(before, master, after),
        0 <= at < after.sealed.len(),
        bit < 8,
        opened_under(
            derived_key(master, after.salt),
            with_payload(after, with_bit_flipped(after.sealed, at, bit)),
        ).is_none(),
        matches_outcome(
            opened,
            opened_with(master, with_payload(after, with_bit_flipped(after.sealed, at, bit))),
        ),
    ensures
        with_bit_flipped(after.sealed, at, bit) != after.sealed,
        opened == Err::<Vec<u8>, VaultError>(VaultError::Authentication),
{
    let byte = after.sealed[at];
    assert(byte ^ (1u8 << bit) != byte) by (bit_vector)
        requires
            bit < 8,
    ;
    assert(with_bit_flipped(after.sealed, at, bit)[at] != after.sealed[at]);
}

} // verus!
