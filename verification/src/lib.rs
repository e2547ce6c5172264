//! A small proof-of-work blockchain node: transactions, blocks, hashing,
//! validation, mining and the mempools that feed it.

pub mod block;
pub mod cli;
pub mod common;
pub mod consensus_engine;
pub mod crypto;
pub mod digest;
pub mod events;
pub mod mempool;
pub mod mining;
pub mod mining_pool;
pub mod node;
pub mod secp;
pub mod text;
pub mod types;
pub mod validation;
pub mod wallet;
