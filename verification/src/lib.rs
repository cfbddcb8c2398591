//! A minimal single-node append-only ledger: blocks of value-transfer
//! records, each linked to its predecessor by a content hash and carrying a
//! locally-computed proof-of-work.

pub mod blockchain;
mod clock;
pub mod hashing;
pub mod numerals;
