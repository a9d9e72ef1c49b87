//! An append-only ledger of hash-linked, proof-of-work sealed blocks.

pub mod block;
pub mod chain;
pub mod encoding;
pub mod hashing;
pub mod ledger;
pub mod merkle;
pub mod pow;
