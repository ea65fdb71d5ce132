//! Key derivation: from a passphrase and an entry's salt to a cipher key.

use crate::error::VaultError;
use vstd::prelude::*;
use vstd::utf8::encode_utf8;

verus! {

/// Length of a cipher key in bytes.
pub const KEY_LEN: usize = 32;

/// Number of passes Argon2id makes over its memory.
pub const KDF_PASSES: u32 = 192;

/// Memory that Argon2id fills, in kibibytes.
pub const KDF_MEMORY_KIB: u32 = 4096;

/// Number of lanes of the Argon2id computation. The lane count is part of the
/// hash input, so it is pinned here and does not follow the machine.
pub const KDF_LANES: u32 = 4;

/// Most lanes, and with them threads, that a derivation may ask for.
pub const MAX_KDF_LANES: u32 = 16;

/// Shortest salt that Argon2 takes, in bytes.
pub const MIN_SALT_LEN: usize = 8;

/// Longest password or salt that Argon2 takes, in bytes.
pub const MAX_KDF_INPUT_LEN: u64 = 0xFFFF_FFFF;

/// The error of the `argon2` crate. It is passed on unread.
#[verifier::external_type_specification]
#[verifier::external_body]
pub struct ExArgon2Error(argon2::Error);

/// The raw Argon2id hash (version 0x13, no secret, no associated data) of
/// `password` under `salt`, computed with `passes` passes over `memory_kib`
/// kibibytes in `lanes` lanes and cut to `hash_len` bytes.
pub uninterp spec fn argon2id_hash(
    password: Seq<u8>,
    salt: Seq<u8>,
    passes: u32,
    memory_kib: u32,
    lanes: u32,
    hash_len: u32,
) -> Seq<u8>;

/// Whether Argon2 takes a password and a salt of these lengths.
pub open spec fn argon2_takes(password: Seq<u8>, salt: Seq<u8>) -> bool {
    &&& password.len() <= MAX_KDF_INPUT_LEN
    &&& MIN_SALT_LEN <= salt.len() <= MAX_KDF_INPUT_LEN
}

/// Calls `argon2::hash_raw` with an Argon2id, version 0x13 configuration that
/// has no secret and no associated data, and runs one thread for each lane.
///
/// Trusted: for cost parameters in the admitted range, which keeps the
/// threads few, the call succeeds exactly when the password is at most
/// 2^32 - 1 bytes long and the salt between 8 and 2^32 - 1 bytes, and then
/// returns `hash_len` bytes that depend on the arguments alone.
#[verifier::external_body]
fn argon2id_raw(
    password: &[u8],
    salt: &[u8],
    passes: u32,
    memory_kib: u32,
    lanes: u32,
    hash_len: u32,
) -> (result: Result<Vec<u8>, argon2::Error>)
    requires
        1 <= passes,
        1 <= lanes <= MAX_KDF_LANES,
        8 * lanes <= memory_kib <= 0x20_0000,
        4 <= hash_len <= 0x1_0000,
    ensures
        result.is_ok() == argon2_takes(password@, salt@),
        result matches Ok(hash) ==> hash@ == argon2id_hash(
            password@,
            salt@,
            passes,
            memory_kib,
            lanes,
            hash_len,
        ),
        result matches Ok(hash) ==> hash@.len() == hash_len,
{
    let config = argon2::Config {
        ad: &[],
        hash_length: hash_len,
        lanes,
        mem_cost: memory_kib,
        secret: &[],
        thread_mode: argon2::ThreadMode::from_threads(lanes),
        time_cost: passes,
        variant: argon2::Variant::Argon2id,
        version: argon2::Version::Version13,
    };
    argon2::hash_raw(password, salt, &config)
}

/// A key for the cipher: exactly `KEY_LEN` bytes. Sealing takes a key by
/// value and a key cannot be copied, so one key seals at most one payload.
#[derive(Debug, PartialEq, Eq)]
pub struct Key {
    pub bytes: [u8; KEY_LEN],
}

impl View for Key {
    type V = Seq<u8>;

    open spec fn view(&self) -> Seq<u8> {
        self.bytes@
    }
}

impl Key {
    /// Makes a key of `bytes`, which must be exactly `KEY_LEN` long.
    pub fn new(bytes: &[u8]) -> (result: Result<Key, VaultError>)
        ensures
            result.is_ok() <==> bytes@.len() == KEY_LEN,
            result matches Ok(key) ==> key@ == bytes@,
            result matches Err(e) ==> e == VaultError::KeyDerivation,
    {
        if bytes.len() != KEY_LEN {
            return Err(VaultError::KeyDerivation);
        }
        let mut key = Key { bytes: [0u8; KEY_LEN] };
        let mut i: usize = 0;
        while i < KEY_LEN
            invariant
                i <= KEY_LEN,
                bytes@.len() == KEY_LEN,
                forall|j: int| 0 <= j < i ==> key.bytes@[j] == bytes@[j],
            decreases KEY_LEN - i,
        {
            key.bytes[i] = bytes[i];
            i = i + 1;
        }
        assert(key@ =~= bytes@);
        Ok(key)
    }
}

/// Whether a key can be derived from `master` and `salt`: the passphrase is
/// not empty, and both fit what Argon2 takes.
pub open spec fn derivable(master: Seq<char>, salt: Seq<u8>) -> bool {
    &&& master.len() > 0
    &&& argon2_takes(encode_utf8(master), salt)
}

/// The key that belongs to `master` and `salt`.
pub open spec fn derived_key(master: Seq<char>, salt: Seq<u8>) -> Seq<u8> {
    argon2id_hash(
        encode_utf8(master),
        salt,
        KDF_PASSES,
        KDF_MEMORY_KIB,
        KDF_LANES,
        KEY_LEN as u32,
    )
}

/// What `derive` returns for `master` and `salt`: the derived key where one
/// can be derived, and `KeyDerivation` where not.
pub open spec fn derive_gives(
    master: Seq<char>,
    salt: Seq<u8>,
    result: Result<Key, VaultError>,
) -> bool {
    &&& result.is_ok() <==> derivable(master, salt)
    &&& result matches Ok(key) ==> key@ == derived_key(master, salt)
    &&& result matches Err(e) ==> e == VaultError::KeyDerivation
}

/// Derives the cipher key from the passphrase `master` and an entry's salt.
///
/// The key is a function of the two arguments alone. An empty passphrase, or
/// a salt or passphrase of a length that Argon2 does not take, is refused
/// with `KeyDerivation`.
pub fn derive(master: &str, salt: &[u8]) -> (result: Result<Key, VaultError>)
    ensures
        derive_gives(master@, salt@, result),
{
    let password = master.as_bytes();
    if password.len() == 0 {
        return Err(VaultError::KeyDerivation);
    }
    match argon2id_raw(password, salt, KDF_PASSES, KDF_MEMORY_KIB, KDF_LANES, KEY_LEN as u32) {
        Ok(hash) => Key::new(hash.as_slice()),
        Err(_) => Err(VaultError::KeyDerivation),
    }
}

/// Derivation is deterministic: two calls of `derive` on the same passphrase
/// and salt return the same outcome, byte for byte.
pub proof fn lemma_derive_deterministic(
    master: Seq<char>,
    salt: Seq<u8>,
    first: Result<Key, VaultError>,
    second: Result<Key, VaultError>,
)
    requires
        derive_gives(master, salt, first),
        derive_gives(master, salt, second),
    ensures
        first == second,
{
    if first.is_ok() {
        assert(first.unwrap().bytes =~= second.unwrap().bytes);
    }
}

} // verus!
