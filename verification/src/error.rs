use vstd::prelude::*;

verus! {

/// Why a sealing or opening operation did not produce a result.
#[derive(Clone, Copy, Debug, PartialEq, Eq, Structural)]
pub enum VaultError {
    /// The password hash rejected its inputs or could not run.
    KeyDerivation,
    /// The cipher refused to encrypt the payload.
    Seal,
    /// Wrong passphrase, or the stored entry was altered.
    Authentication,
    /// The nonce counter has no values left.
    NonceExhausted,
}

} // verus!
