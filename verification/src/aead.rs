//! The cipher: ChaCha20-Poly1305 as an authenticated encryption of one
//! payload under a key, a nonce and associated data.

use crate::kdf::Key;
use crate::nonce::NONCE_LEN;
use vstd::prelude::*;

verus! {

/// Length of the authentication tag in bytes.
pub const TAG_LEN: usize = 16;

/// Longest payload that may be sealed under one nonce, in bytes: the cipher
/// counts 64-byte blocks in 32 bits and keeps one block for itself.
pub const MAX_PAYLOAD_LEN: u64 = 274_877_906_880;

/// The error of `ring`, which says nothing of its cause. It is passed on
/// unread.
#[verifier::external_type_specification]
#[verifier::external_body]
pub struct ExUnspecified(ring::error::Unspecified);

/// The ciphertext and tag that ChaCha20-Poly1305 gives for `plaintext` under
/// `key` and `nonce`, with `aad` authenticated alongside.
pub uninterp spec fn chacha20_poly1305_sealed(
    key: Seq<u8>,
    nonce: Seq<u8>,
    aad: Seq<u8>,
    plaintext: Seq<u8>,
) -> Seq<u8>;

/// What ChaCha20-Poly1305 recovers from `sealed` under `key` and `nonce` with
/// `aad`: the plaintext, or nothing where the tag does not match.
pub uninterp spec fn chacha20_poly1305_opened(
    key: Seq<u8>,
    nonce: Seq<u8>,
    aad: Seq<u8>,
    sealed: Seq<u8>,
) -> Option<Seq<u8>>;

/// Whether a payload is short enough to be sealed under one nonce.
pub open spec fn fits_one_nonce(payload: Seq<u8>) -> bool {
    payload.len() <= MAX_PAYLOAD_LEN
}

/// Calls `LessSafeKey::seal_in_place_append_tag` of `ring::aead` with the
/// ChaCha20-Poly1305 algorithm, on a key, nonce and associated data made of
/// the given bytes.
///
/// Trusted: the call succeeds exactly when the payload fits one nonce. It
/// then replaces the payload by its ciphertext and appends the 16-byte tag,
/// both a function of the four inputs alone, and the cipher's opening
/// operation recovers the payload from what was written. On failure the
/// buffer is left as it was.
#[verifier::external_body]
pub(crate) fn seal_in_place(
    key: &Key,
    nonce: &[u8; NONCE_LEN],
    aad: &[u8],
    in_out: &mut Vec<u8>,
) -> (result: Result<(), ring::error::Unspecified>)
    ensures
        result.is_ok() == fits_one_nonce(old(in_out)@),
        result.is_ok() ==> final(in_out)@ == chacha20_poly1305_sealed(
            key@,
            nonce@,
            aad@,
            old(in_out)@,
        ),
        result.is_ok() ==> final(in_out)@.len() == old(in_out)@.len() + TAG_LEN,
        result.is_ok() ==> chacha20_poly1305_opened(key@, nonce@, aad@, final(in_out)@) == Some(
            old(in_out)@,
        ),
        result.is_err() ==> final(in_out)@ == old(in_out)@,
{
    let unbound = ring::aead::UnboundKey::new(&ring::aead::CHACHA20_POLY1305, &key.bytes)?;
    let nonce = ring::aead::Nonce::assume_unique_for_key(*nonce);
    ring::aead::LessSafeKey::new(unbound).seal_in_place_append_tag(
        nonce,
        ring::aead::Aad::from(aad),
        in_out,
    )
}

/// Calls `LessSafeKey::open_in_place` of `ring::aead` with the
/// ChaCha20-Poly1305 algorithm, on a key, nonce and associated data made of
/// the given bytes, and copies the plaintext out of the buffer.
///
/// Trusted: the outcome is a function of the four inputs alone. A plaintext
/// that comes back is shorter than the input by the 16-byte tag. The buffer
/// keeps its length; what it holds afterwards is not stated.
#[verifier::external_body]
pub(crate) fn open_in_place(
    key: &Key,
    nonce: &[u8; NONCE_LEN],
    aad: &[u8],
    in_out: &mut Vec<u8>,
) -> (result: Result<Vec<u8>, ring::error::Unspecified>)
    ensures
        result matches Ok(plain) ==> chacha20_poly1305_opened(
            key@,
            nonce@,
            aad@,
            old(in_out)@,
        ) == Some(plain@),
        result matches Ok(plain) ==> plain@.len() + TAG_LEN == old(in_out)@.len(),
        result.is_err() ==> chacha20_poly1305_opened(key@, nonce@, aad@, old(in_out)@).is_none(),
        final(in_out)@.len() == old(in_out)@.len(),
{
    let unbound = ring::aead::UnboundKey::new(&ring::aead::CHACHA20_POLY1305, &key.bytes)?;
    let nonce = ring::aead::Nonce::assume_unique_for_key(*nonce);
    ring::aead::LessSafeKey::new(unbound)
        .open_in_place(nonce, ring::aead::Aad::from(aad), in_out.as_mut_slice())
        .map(|plain| plain.to_vec())
}

} // verus!
