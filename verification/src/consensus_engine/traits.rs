//! What the consensus engine needs from its surroundings: a block hash, a
//! miner, a block store, a network and a mempool.

use crate::consensus_engine::block::{block_digest, Block};
use crate::consensus_engine::transaction::Transaction;
use vstd::prelude::*;

verus! {

/// Computes the hash a block carries.
pub trait Hasher {
    /// The hash of `block`.
    spec fn spec_hash_block(block: Block) -> Seq<char>;

    /// Hashes `block`.
    fn hash_block(block: &Block) -> (h: String)
        ensures
            h@ == Self::spec_hash_block(*block),
    ;
}

/// The SHA-256 block hash of `Block::calculate_hash`.
pub struct Sha256Hasher;

impl Hasher for Sha256Hasher {
    open spec fn spec_hash_block(block: Block) -> Seq<char> {
        block_digest(block)
    }

    fn hash_block(block: &Block) -> (h: String) {
        block.calculate_hash()
    }
}

/// Searches a nonce for a block.
pub trait Miner {
    /// Mines `block` at `difficulty`; `None` when no nonce was found.
    fn mine(&self, block: Block, difficulty: usize) -> Option<Block>;
}

/// A store of blocks.
pub trait Storage {
    /// The newest block, if any.
    fn get_last_block(&self) -> Option<Block>;

    /// The stored block with the hash of `block`, if any.
    fn get_block(&self, block: &Block) -> Option<Block>;

    /// The stored chain.
    fn get_chain(&self, block: &Block) -> Vec<Block>;

    /// Appends `block`.
    fn save(&mut self, block: &Block);

    /// Replaces the stored chain by `chain`, and returns it.
    fn replace_chain(&mut self, block: Block, chain: Vec<Block>) -> Vec<Block>;
}

/// Sends blocks and chains to the peers.
pub trait Network {
    /// Sends one block.
    fn broadcast_block(&mut self, block: &Block);

    /// Sends a whole chain.
    fn broadcast_chain(&mut self, chain: Vec<Block>);
}

/// The pending transactions the engine mines from.
pub trait Mempool {
    /// The pending transactions.
    fn get_pending_transactions(&self) -> Vec<Transaction>;

    /// The pending transactions.
    fn get_transactions(&self) -> Vec<Transaction>;

    /// Drops the given transactions from the pool.
    fn remove_transactions(&mut self, tx: &Vec<Transaction>);

    /// Offers a transaction to the pool.
    fn add_transaction_to_mempool(&mut self, tx: &Transaction);
}

} // verus!
