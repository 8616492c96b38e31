//! An append-only, hash-linked ledger whose blocks are sealed by proof of work.

pub mod hashing;
pub mod block;
pub mod merkle;
pub mod pow;
pub mod ledger;

pub use block::{Block, Blockheader, Transaction};
pub use hashing::Encode;
pub use ledger::{Chain, ChainError};
