//! The consensus engine: blocks with a text hash, their miner and
//! validators, an in-memory block store, and the engine's commands.

pub mod block;
pub mod engine;
pub mod miner;
pub mod network_adapter;
pub mod ports;
pub mod storage;
pub mod traits;
pub mod transaction;
pub mod types;
pub mod validation;
