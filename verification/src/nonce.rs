//! The nonce sequencer: a counter that hands out one 96-bit nonce per step.

use crate::error::VaultError;
use vstd::prelude::*;

verus! {

/// Width of a nonce in bytes.
pub const NONCE_LEN: usize = 12;

/// Number of distinct nonces, 2^96: the first counter value that has no nonce.
pub const NONCE_SPACE: u128 = 0x1_0000_0000_0000_0000_0000_0000;

/// The `len` low-order bytes of `value`, least significant byte first.
pub open spec fn le_bytes(value: nat, len: nat) -> Seq<u8>
    decreases len,
{
    if len == 0 {
        Seq::empty()
    } else {
        seq![(value % 256) as u8] + le_bytes(value / 256, (len - 1) as nat)
    }
}

/// The number that `bytes` spell when read least significant byte first.
pub open spec fn le_value(bytes: Seq<u8>) -> nat
    decreases bytes.len(),
{
    if bytes.len() == 0 {
        0
    } else {
        bytes[0] as nat + 256 * le_value(bytes.skip(1))
    }
}

/// 256 to the power `n`: how many values `n` bytes can spell.
pub open spec fn pow256(n: nat) -> nat
    decreases n,
{
    if n == 0 {
        1
    } else {
        256 * pow256((n - 1) as nat)
    }
}

/// The nonce that stands for counter value `counter`.
pub open spec fn nonce_of(counter: nat) -> Seq<u8> {
    le_bytes(counter, NONCE_LEN as nat)
}

/// `le_bytes` always yields exactly `len` bytes.
proof fn lemma_le_bytes_len(value: nat, len: nat)
    ensures
        le_bytes(value, len).len() == len,
    decreases len,
{
    if len > 0 {
        lemma_le_bytes_len(value / 256, (len - 1) as nat);
    }
}

/// Reading back what `le_bytes` wrote gives the value again, as long as the
/// value fits in `len` bytes.
pub proof fn lemma_le_value_of_le_bytes(value: nat, len: nat)
    requires
        value < pow256(len),
    ensures
        le_value(le_bytes(value, len)) == value,
    decreases len,
{
    if len > 0 {
        let rest = le_bytes(value / 256, (len - 1) as nat);
        let all = le_bytes(value, len);
        lemma_le_bytes_len(value / 256, (len - 1) as nat);
        lemma_le_value_of_le_bytes(value / 256, (len - 1) as nat);
        assert(all.skip(1) =~= rest);
        assert(all[0] == (value % 256) as u8);
    }
}

/// Twelve bytes spell exactly the values below `NONCE_SPACE`.
proof fn lemma_nonce_space()
    ensures
        pow256(NONCE_LEN as nat) == NONCE_SPACE,
{
    reveal_with_fuel(pow256, 13);
}

/// Nonce uniqueness: two counter values below `NONCE_SPACE` that differ have
/// nonces that differ.
pub proof fn lemma_nonces_distinct(a: nat, b: nat)
    requires
        a < NONCE_SPACE,
        b < NONCE_SPACE,
        a != b,
    ensures
        nonce_of(a) != nonce_of(b),
{
    lemma_nonce_space();
    lemma_le_value_of_le_bytes(a, NONCE_LEN as nat);
    lemma_le_value_of_le_bytes(b, NONCE_LEN as nat);
}

/// A source of nonces for one sealing or one opening operation.
///
/// It counts upwards from zero and never hands out the same nonce twice: once
/// all 2^96 values are used it reports `NonceExhausted` from then on.
#[derive(Debug)]
pub struct Counter {
    /// The value whose nonce is handed out next.
    pub counter: u128,
}

impl Counter {
    /// A fresh sequencer, whose first nonce is that of zero.
    pub fn new() -> (fresh: Self)
        ensures
            fresh.counter == 0,
    {
        Self { counter: 0 }
    }

    /// Hands out the nonce of the current counter value and steps the counter.
    pub fn advance(&mut self) -> (result: Result<[u8; NONCE_LEN], VaultError>)
        ensures
            old(self).counter < NONCE_SPACE ==> result.is_ok(),
            match result {
                Ok(nonce) => {
                    &&& old(self).counter < NONCE_SPACE
                    &&& nonce@ == nonce_of(old(self).counter as nat)
                    &&& final(self).counter == old(self).counter + 1
                },
                Err(e) => {
                    &&& e == VaultError::NonceExhausted
                    &&& old(self).counter >= NONCE_SPACE
                    &&& final(self).counter == old(self).counter
                },
            },
    {
        if self.counter >= NONCE_SPACE {
            return Err(VaultError::NonceExhausted);
        }
        let mut nonce: [u8; NONCE_LEN] = [0u8; NONCE_LEN];
        let mut rest: u128 = self.counter;
        let mut i: usize = 0;
        while i < NONCE_LEN
            invariant
                i <= NONCE_LEN,
                nonce_of(self.counter as nat) == nonce@.take(i as int) + le_bytes(
                    rest as nat,
                    (NONCE_LEN - i) as nat,
                ),
            decreases NONCE_LEN - i,
        {
            let ghost before = nonce@;
            nonce[i] = (rest % 256) as u8;
            proof {
                assert(nonce@.take(i as int + 1) =~= before.take(i as int) + seq![
                    (rest % 256) as u8,
                ]);
            }
            rest = rest / 256;
            i = i + 1;
        }
        proof {
            assert(nonce@.take(NONCE_LEN as int) =~= nonce@);
        }
        self.counter = self.counter + 1;
        Ok(nonce)
    }
}

} // verus!
