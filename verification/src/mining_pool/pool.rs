//! The pool's commands and what it sends its workers for each.

use crate::common::types::Block;
use crate::mining_pool::miner::{starts_worker, MinerCommand};
use vstd::prelude::*;

verus! {

/// A command to the pool.
pub enum MiningPoolCommand {
    StartMining(Block, usize),
    StopMining,
    PauseMining,
    ResumeMining,
}

/// A failure of the pool.
#[derive(Debug)]
pub enum MiningPoolError {
    MinerError(String),
}

impl From<String> for MiningPoolError {
    fn from(value: String) -> (e: MiningPoolError) {
        MiningPoolError::MinerError(value)
    }
}

impl vstd::std_specs::convert::FromSpecImpl<String> for MiningPoolError {
    open spec fn obeys_from_spec() -> bool {
        true
    }

    open spec fn from_spec(v: String) -> MiningPoolError {
        MiningPoolError::MinerError(v)
    }
}

/// What the pool does for a command: send `before` (worker index and
/// command, in order), then add `spawn` new workers, then send `after`.
pub struct CommandPlan {
    pub before: Vec<(usize, MinerCommand)>,
    pub spawn: usize,
    pub after: Vec<(usize, MinerCommand)>,
}

/// Whether `sends` gives each of `n` workers, in order, a command that
/// `is_cmd` accepts.
pub open spec fn to_each(sends: Seq<(usize, MinerCommand)>, n: usize, is_cmd: spec_fn(MinerCommand) -> bool) -> bool {
    &&& sends.len() == n
    &&& forall|i: int| 0 <= i < n ==> (#[trigger] sends[i]).0 == i && is_cmd(sends[i].1)
}

fn stop_all(workers: usize) -> (sends: Vec<(usize, MinerCommand)>)
    ensures
        to_each(sends@, workers, |c: MinerCommand| c is Stop),
{
    let mut sends: Vec<(usize, MinerCommand)> = Vec::new();
    let mut i: usize = 0;
    while i < workers
        invariant
            0 <= i <= workers,
            sends@.len() == i,
            forall|j: int| 0 <= j < i ==> (#[trigger] sends@[j]).0 == j && sends@[j].1 is Stop,
        decreases workers - i,
    {
        sends.push((i, MinerCommand::Stop));
        i = i + 1;
    }
    sends
}

fn pause_all(workers: usize) -> (sends: Vec<(usize, MinerCommand)>)
    ensures
        to_each(sends@, workers, |c: MinerCommand| c is Pause),
{
    let mut sends: Vec<(usize, MinerCommand)> = Vec::new();
    let mut i: usize = 0;
    while i < workers
        invariant
            0 <= i <= workers,
            sends@.len() == i,
            forall|j: int| 0 <= j < i ==> (#[trigger] sends@[j]).0 == j && sends@[j].1 is Pause,
        decreases workers - i,
    {
        sends.push((i, MinerCommand::Pause));
        i = i + 1;
    }
    sends
}

fn resume_all(workers: usize) -> (sends: Vec<(usize, MinerCommand)>)
    ensures
        to_each(sends@, workers, |c: MinerCommand| c is Resume),
{
    let mut sends: Vec<(usize, MinerCommand)> = Vec::new();
    let mut i: usize = 0;
    while i < workers
        invariant
            0 <= i <= workers,
            sends@.len() == i,
            forall|j: int| 0 <= j < i ==> (#[trigger] sends@[j]).0 == j && sends@[j].1 is Resume,
        decreases workers - i,
    {
        sends.push((i, MinerCommand::Resume));
        i = i + 1;
    }
    sends
}

/// What the pool, with `workers` workers, sends them when one of them
/// found a block: a stop to every worker (the block itself goes on to the
/// pool's subscribers).
pub fn plan_block_found(workers: usize) -> (sends: Vec<(usize, MinerCommand)>)
    ensures
        to_each(sends@, workers, |c: MinerCommand| c is Stop),
{
    stop_all(workers)
}

/// What the pool, with `workers` workers, does for `command`.  Starting
/// stops every worker, adds workers up to the number asked for, then
/// starts every worker `i` on a copy of the block with nonce `i`.
/// Stopping, pausing and resuming send that command to every worker.
pub fn plan_command(command: MiningPoolCommand, workers: usize, difficulty: usize) -> (p: CommandPlan)
    ensures
        match command {
            MiningPoolCommand::StartMining(block, n) => {
                &&& to_each(p.before@, workers, |c: MinerCommand| c is Stop)
                &&& p.spawn == if n > workers { n - workers } else { 0 }
                &&& p.after@.len() == if n > workers { n } else { workers }
                &&& forall|i: int| 0 <= i < p.after@.len() ==> (#[trigger] p.after@[i]).0 == i
                    && starts_worker(p.after@[i].1, block, i, difficulty, n)
            },
            MiningPoolCommand::StopMining => to_each(p.before@, workers, |c: MinerCommand| c is Stop)
                && p.spawn == 0 && p.after@.len() == 0,
            MiningPoolCommand::PauseMining => to_each(p.before@, workers, |c: MinerCommand| c is Pause)
                && p.spawn == 0 && p.after@.len() == 0,
            MiningPoolCommand::ResumeMining => to_each(p.before@, workers, |c: MinerCommand| c is Resume)
                && p.spawn == 0 && p.after@.len() == 0,
        },
{
    match command {
        MiningPoolCommand::StartMining(block, n) => {
            let before = stop_all(workers);
            let spawn: usize = if n > workers { n - workers } else { 0 };
            let total: usize = if n > workers { n } else { workers };
            let mut after: Vec<(usize, MinerCommand)> = Vec::new();
            let mut i: usize = 0;
            while i < total
                invariant
                    0 <= i <= total,
                    after@.len() == i,
                    forall|j: int| 0 <= j < i ==> (#[trigger] after@[j]).0 == j
                        && starts_worker(after@[j].1, block, j, difficulty, n),
                decreases total - i,
            {
                let mut b = block.clone();
                b.header.nonce = i as u64;
                after.push((i, MinerCommand::Start { block: b, difficulty, worker_id: i, num_workers: n }));
                i = i + 1;
            }
            CommandPlan { before, spawn, after }
        },
        MiningPoolCommand::StopMining => CommandPlan { before: stop_all(workers), spawn: 0, after: Vec::new() },
        MiningPoolCommand::PauseMining => CommandPlan { before: pause_all(workers), spawn: 0, after: Vec::new() },
        MiningPoolCommand::ResumeMining => CommandPlan { before: resume_all(workers), spawn: 0, after: Vec::new() },
    }
}

} // verus!
