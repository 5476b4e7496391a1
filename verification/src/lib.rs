//! Keccak-256: the Ethereum-style variant of the Keccak hash (domain
//! separator byte `0x01`, unlike NIST SHA3-256's `0x06`), computed over a
//! whole byte buffer at once and yielding a fixed 32-byte digest.
//!
//! The crate is organised leaves-first: `permutation` holds the
//! Keccak-f[1600] core (the 5x5x64-bit state and its five step mappings,
//! applied for 24 rounds), and `sponge` drives it through the pad / absorb /
//! squeeze protocol that turns a variable-length input into the digest.

pub mod permutation;
pub mod sponge;

pub use crate::sponge::keccak256;
