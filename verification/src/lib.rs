//! A minimal hash-chained ledger.
//!
//! A chain is a list of blocks. Each block holds an ordered list of
//! value-transfer transactions, the digest of the block before it, and its own
//! digest, which is the SHA-256 of its predecessor's digest and its
//! transactions, in order. Changing anything in a block changes its digest, so
//! a block that was altered after its successor was linked shows up as a
//! mismatch when the chain is validated.

pub mod block;
pub mod chain;
pub mod clock;
pub mod decimal;
pub mod digest;
pub mod transaction;
pub mod wallet;

pub use crate::block::{block_text, calculate_block_hash, Block};
pub use crate::chain::BlockChain;
pub use crate::clock::Timestamp;
pub use crate::transaction::Transaction;
pub use crate::wallet::Wallet;
