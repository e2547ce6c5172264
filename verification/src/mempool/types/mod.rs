//! The UTXO mempool and the signed transaction type of the mempool.

pub mod mempool;
pub mod tx;
