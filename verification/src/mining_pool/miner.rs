//! What a mining worker is told, and the states it reports.

use crate::common::types::{txs_view, Block, BlockHeader};
use vstd::prelude::*;

verus! {

/// A command to one mining worker.
pub enum MinerCommand {
    Start { block: Block, difficulty: usize, worker_id: usize, num_workers: usize },
    Pause,
    Resume,
    Stop,
    PollData,
}

/// Whether `c` tells worker `i` of `n` to mine `block` from nonce `i` at
/// `difficulty`.
pub open spec fn starts_worker(c: MinerCommand, block: Block, i: int, difficulty: usize, n: usize) -> bool {
    &&& c matches MinerCommand::Start { block: b, difficulty: d, worker_id: w, num_workers: k }
    &&& b.header == (BlockHeader { nonce: i as u64, ..block.header })
    &&& txs_view(b.txs@) == txs_view(block.txs@)
    &&& d == difficulty
    &&& w == i
    &&& k == n
}

/// What a worker is doing.
#[derive(Debug)]
pub enum MinerState {
    Mining,
    Paused,
    Stopped,
}

impl MinerState {
    /// The state's name.
    pub fn name(&self) -> (s: String)
        ensures
            s@ == match self {
                MinerState::Mining => "Mining"@,
                MinerState::Paused => "Paused"@,
                MinerState::Stopped => "Stopped"@,
            },
    {
        match self {
            MinerState::Mining => crate::text::owned("Mining"),
            MinerState::Paused => crate::text::owned("Paused"),
            MinerState::Stopped => crate::text::owned("Stopped"),
        }
    }
}

impl Default for MinerState {
    fn default() -> (s: MinerState)
        ensures
            s is Stopped,
    {
        MinerState::Stopped
    }
}

} // verus!
