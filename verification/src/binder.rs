//! The metadata binder: an entry's visible fields as associated data.

use crate::entry::{Entry, EntryView};
use vstd::prelude::*;
use vstd::utf8::encode_utf8;

verus! {

/// Length of one SHA-256 digest in bytes.
pub const DIGEST_LEN: usize = 32;

/// Length of an entry's associated data in bytes: three digests.
pub const AAD_LEN: usize = 96;

/// The SHA-256 digest of `data`.
pub uninterp spec fn sha256_digest(data: Seq<u8>) -> Seq<u8>;

/// Calls `ring::digest::digest` with the SHA-256 algorithm.
///
/// Trusted: the digest is 32 bytes long and depends on the data alone.
#[verifier::external_body]
fn sha256(data: &[u8]) -> (digest: Vec<u8>)
    ensures
        digest@ == sha256_digest(data@),
        digest@.len() == DIGEST_LEN,
{
    ring::digest::digest(&ring::digest::SHA256, data).as_ref().to_vec()
}

/// The associated data of an entry: the digests of the UTF-8 bytes of `long`,
/// `short` and `extra`, in that order.
pub open spec fn associated_data(entry: EntryView) -> Seq<u8> {
    sha256_digest(encode_utf8(entry.long)) + sha256_digest(encode_utf8(entry.short))
        + sha256_digest(encode_utf8(entry.extra))
}

/// Computes the associated data that binds `entry`'s visible fields to its
/// payload. Each field has a place of its own in it: the first 32 bytes are
/// the digest of `long`, the next 32 that of `short`, the last 32 that of
/// `extra`. Neither the salt nor the payload enters it.
pub fn hash(entry: &Entry) -> (aad: Vec<u8>)
    ensures
        aad@ == associated_data(entry@),
        aad@.len() == AAD_LEN,
        aad@.subrange(0, 32) == sha256_digest(encode_utf8(entry@.long)),
        aad@.subrange(32, 64) == sha256_digest(encode_utf8(entry@.short)),
        aad@.subrange(64, 96) == sha256_digest(encode_utf8(entry@.extra)),
{
    let mut data: Vec<u8> = Vec::new();
    let mut long = sha256(entry.long.as_str().as_bytes());
    let ghost long_digest = long@;
    data.append(&mut long);
    let mut short = sha256(entry.short.as_str().as_bytes());
    let ghost short_digest = short@;
    data.append(&mut short);
    let mut extra = sha256(entry.extra.as_str().as_bytes());
    let ghost extra_digest = extra@;
    data.append(&mut extra);
    proof {
        assert(data@ =~= long_digest + short_digest + extra_digest);
        assert(data@.subrange(0, 32) =~= long_digest);
        assert(data@.subrange(32, 64) =~= short_digest);
        assert(data@.subrange(64, 96) =~= extra_digest);
    }
    data
}

} // verus!
