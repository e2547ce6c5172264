//! What the consensus engine tells its mining workers, and the check it
//! asks of a block validator.

use crate::common::types::{txs_view, Block, BlockHeader};
use vstd::prelude::*;

verus! {

/// A command to one mining worker.
pub enum MinerCommand {
    Start { block: Block, difficulty: usize, worker_id: usize, num_workers: usize },
    Pause,
    Resume,
    Stop,
}

/// Whether `c` tells worker `i` of `n` to mine `block` from nonce `i` at
/// `difficulty`.
pub open spec fn starts_worker(c: MinerCommand, block: Block, i: int, difficulty: usize, n: usize) -> bool {
    &&& c matches MinerCommand::Start { block: b, difficulty: d, worker_id: w, num_workers: k }
    &&& b.header == (BlockHeader { nonce: i as u64, ..block.header })
    &&& txs_view(b.txs@) == txs_view(block.txs@)
    &&& d == difficulty
    &&& w == i
    &&& k == n
}

/// Decides whether a candidate block may follow the previous one.
pub trait BlockValidator {
    /// Whether this validator accepts `candidate` after `prev`.
    spec fn accepts(&self, prev: Block, candidate: Block) -> bool;

    /// Whether `candidate_block` is accepted after `prev_block`.
    fn validate(&self, prev_block: &Block, candidate_block: &Block) -> (r: bool)
        ensures
            r == self.accepts(*prev_block, *candidate_block),
    ;
}

/// Mines a candidate block.
pub trait Miner {
    /// Whether `mined` is a block this miner may return for `block` at
    /// `difficulty`.
    spec fn may_mine(&self, block: Block, difficulty: usize, mined: Block) -> bool;

    /// Mines `block` at `difficulty`.
    fn mine(&self, block: Block, difficulty: usize) -> (mined: Block)
        ensures
            self.may_mine(block, difficulty, mined),
    ;
}

} // verus!
