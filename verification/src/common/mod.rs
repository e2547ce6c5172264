//! Types shared by the engine, the mempool and the miners: hashes, UTXO
//! transactions, blocks with a Merkle root, and the interfaces (hashing,
//! signing) that users plug in.

pub mod ports;
pub mod types;
