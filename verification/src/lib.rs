//! A local store of named secrets, each sealed on its own.
//!
//! Every entry carries a salt of its own. A passphrase and that salt derive a
//! key ([`kdf`]); the entry's visible fields become associated data
//! ([`binder`]); a counter hands out the nonce ([`nonce`]); and the cipher
//! ([`aead`]) turns the payload into ciphertext and tag, or back
//! ([`engine`]). Each key seals one payload, under the first nonce: sealing
//! takes a fresh entry by value and gives a sealed one, which can be opened
//! and not sealed again.
//!
//! Around that stand the two forms of an entry ([`entry`]), the collection
//! and its naming rules ([`store`]), the making of fresh secrets
//! ([`generator`]) and the reading of yes-or-no answers ([`answer`]).

pub mod aead;
pub mod answer;
pub mod binder;
pub mod engine;
pub mod entry;
pub mod error;
pub mod generator;
pub mod kdf;
pub mod nonce;
pub mod store;
