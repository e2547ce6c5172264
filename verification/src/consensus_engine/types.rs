//! The engine's commands, its errors and its workers' states, and what it
//! sends its workers for each command.

use crate::common::types::Block;
use crate::consensus_engine::ports::{starts_worker, MinerCommand};
use crate::consensus_engine::transaction::{framed_text, le_bytes, push_framed_text, push_le_bytes};
use vstd::prelude::*;

verus! {

/// A failure of the engine.
#[derive(Debug)]
pub enum ConsensusEngineError {
    MinerError(String),
}

impl From<String> for ConsensusEngineError {
    fn from(value: String) -> (e: ConsensusEngineError) {
        ConsensusEngineError::MinerError(value)
    }
}

impl vstd::std_specs::convert::FromSpecImpl<String> for ConsensusEngineError {
    open spec fn obeys_from_spec() -> bool {
        true
    }

    open spec fn from_spec(v: String) -> ConsensusEngineError {
        ConsensusEngineError::MinerError(v)
    }
}

/// What a worker is doing.
#[derive(Debug)]
pub enum MinerState {
    Mining,
    Paused,
    Stopped,
}

impl Default for MinerState {
    fn default() -> (s: MinerState)
        ensures
            s is Stopped,
    {
        MinerState::Stopped
    }
}

/// A command to the engine.
pub enum ConsensusEngineCommand {
    StartMining(Block, usize),
    StopMining,
    PauseMining,
    ResumeMining,
    ValidateBlock(Block, Block),
}

/// What the engine does for a command: send `before` (worker index and
/// command, in order), add `spawn` new workers, send `after`, and, when
/// `validate` holds a block and the block before it, report the
/// validator's verdict on them.
pub struct EnginePlan {
    pub before: Vec<(usize, MinerCommand)>,
    pub spawn: usize,
    pub after: Vec<(usize, MinerCommand)>,
    pub validate: Option<(Block, Block)>,
}

/// Whether `sends` gives each of `n` workers, in order, a command that
/// `is_cmd` accepts.
pub open spec fn to_each(sends: Seq<(usize, MinerCommand)>, n: usize, is_cmd: spec_fn(MinerCommand) -> bool) -> bool {
    &&& sends.len() == n
    &&& forall|i: int| 0 <= i < n ==> (#[trigger] sends[i]).0 == i && is_cmd(sends[i].1)
}

fn stop_all(workers: usize) -> (sends: Vec<(usize, MinerCommand)>)
    ensures
        to_each(sends@, workers, |c: MinerCommand| c is Stop),
{
    let mut sends: Vec<(usize, MinerCommand)> = Vec::new();
    let mut i: usize = 0;
    while i < workers
        invariant
            0 <= i <= workers,
            sends@.len() == i,
            forall|j: int| 0 <= j < i ==> (#[trigger] sends@[j]).0 == j && sends@[j].1 is Stop,
        decreases workers - i,
    {
        sends.push((i, MinerCommand::Stop));
        i = i + 1;
    }
    sends
}

fn pause_all(workers: usize) -> (sends: Vec<(usize, MinerCommand)>)
    ensures
        to_each(sends@, workers, |c: MinerCommand| c is Pause),
{
    let mut sends: Vec<(usize, MinerCommand)> = Vec::new();
    let mut i: usize = 0;
    while i < workers
        invariant
            0 <= i <= workers,
            sends@.len() == i,
            forall|j: int| 0 <= j < i ==> (#[trigger] sends@[j]).0 == j && sends@[j].1 is Pause,
        decreases workers - i,
    {
        sends.push((i, MinerCommand::Pause));
        i = i + 1;
    }
    sends
}

fn resume_all(workers: usize) -> (sends: Vec<(usize, MinerCommand)>)
    ensures
        to_each(sends@, workers, |c: MinerCommand| c is Resume),
{
    let mut sends: Vec<(usize, MinerCommand)> = Vec::new();
    let mut i: usize = 0;
    while i < workers
        invariant
            0 <= i <= workers,
            sends@.len() == i,
            forall|j: int| 0 <= j < i ==> (#[trigger] sends@[j]).0 == j && sends@[j].1 is Resume,
        decreases workers - i,
    {
        sends.push((i, MinerCommand::Resume));
        i = i + 1;
    }
    sends
}

/// What the engine, with `workers` workers, sends them when one of them
/// found a block: a stop to every worker (the block itself goes on to the
/// engine's sources).
pub fn plan_block_found(workers: usize) -> (sends: Vec<(usize, MinerCommand)>)
    ensures
        to_each(sends@, workers, |c: MinerCommand| c is Stop),
{
    stop_all(workers)
}

/// What the engine, with `workers` workers, does for `command`.  Starting
/// stops every worker, adds workers up to the number asked for, then
/// starts every worker `i` on a copy of the block with nonce `i`.
/// Stopping, pausing and resuming send that command to every worker.
/// Validating sends nothing and hands the two blocks to the validator.
pub fn plan_engine_command(command: ConsensusEngineCommand, workers: usize, difficulty: usize) -> (p: EnginePlan)
    ensures
        match command {
            ConsensusEngineCommand::StartMining(block, n) => {
                &&& to_each(p.before@, workers, |c: MinerCommand| c is Stop)
                &&& p.spawn == if n > workers { n - workers } else { 0 }
                &&& p.after@.len() == if n > workers { n } else { workers }
                &&& forall|i: int| 0 <= i < p.after@.len() ==> (#[trigger] p.after@[i]).0 == i
                    && starts_worker(p.after@[i].1, block, i, difficulty, n)
                &&& p.validate is None
            },
            ConsensusEngineCommand::StopMining => to_each(p.before@, workers, |c: MinerCommand| c is Stop)
                && p.spawn == 0 && p.after@.len() == 0 && p.validate is None,
            ConsensusEngineCommand::PauseMining => to_each(p.before@, workers, |c: MinerCommand| c is Pause)
                && p.spawn == 0 && p.after@.len() == 0 && p.validate is None,
            ConsensusEngineCommand::ResumeMining => to_each(p.before@, workers, |c: MinerCommand| c is Resume)
                && p.spawn == 0 && p.after@.len() == 0 && p.validate is None,
            ConsensusEngineCommand::ValidateBlock(block, prev) => p.before@.len() == 0 && p.spawn == 0
                && p.after@.len() == 0 && p.validate == Some((block, prev)),
        },
{
    match command {
        ConsensusEngineCommand::StartMining(block, n) => {
            let before = stop_all(workers);
            let spawn: usize = if n > workers { n - workers } else { 0 };
            let total: usize = if n > workers { n } else { workers };
            let mut after: Vec<(usize, MinerCommand)> = Vec::new();
            let mut i: usize = 0;
            while i < total
                invariant
                    0 <= i <= total,
                    after@.len() == i,
                    forall|j: int| 0 <= j < i ==> (#[trigger] after@[j]).0 == j
                        && starts_worker(after@[j].1, block, j, difficulty, n),
                decreases total - i,
            {
                let mut b = block.clone();
                b.header.nonce = i as u64;
                after.push((i, MinerCommand::Start { block: b, difficulty, worker_id: i, num_workers: n }));
                i = i + 1;
            }
            EnginePlan { before, spawn, after, validate: None }
        },
        ConsensusEngineCommand::StopMining => EnginePlan { before: stop_all(workers), spawn: 0, after: Vec::new(), validate: None },
        ConsensusEngineCommand::PauseMining => EnginePlan { before: pause_all(workers), spawn: 0, after: Vec::new(), validate: None },
        ConsensusEngineCommand::ResumeMining => EnginePlan { before: resume_all(workers), spawn: 0, after: Vec::new(), validate: None },
        ConsensusEngineCommand::ValidateBlock(block, prev) => EnginePlan {
            before: Vec::new(),
            spawn: 0,
            after: Vec::new(),
            validate: Some((block, prev)),
        },
    }
}

/// A payment as the engine's blocks carry it.
pub struct Tx {
    from: String,
    to: String,
    amount: u64,
    sig: String,
}

impl Tx {
    /// The sender.
    pub closed spec fn sender(&self) -> Seq<char> {
        self.from@
    }

    /// The recipient.
    pub closed spec fn recipient(&self) -> Seq<char> {
        self.to@
    }

    /// The amount.
    pub closed spec fn value(&self) -> u64 {
        self.amount
    }

    /// The signature.
    pub closed spec fn signature(&self) -> Seq<char> {
        self.sig@
    }

    /// Makes a payment.
    pub fn new(from: String, to: String, amount: u64, sig: String) -> (t: Tx)
        ensures
            t.sender() == from@,
            t.recipient() == to@,
            t.value() == amount,
            t.signature() == sig@,
    {
        Tx { from, to, amount, sig }
    }

    /// The bincode encoding of the payment: its fields in order, each
    /// string framed by its length.
    pub fn to_bytes(&self) -> (b: Vec<u8>)
        ensures
            b@ == framed_text(self.sender()) + framed_text(self.recipient()) + le_bytes(self.value() as nat, 8)
                + framed_text(self.signature()),
    {
        let mut out: Vec<u8> = Vec::new();
        push_framed_text(&mut out, self.from.as_str());
        push_framed_text(&mut out, self.to.as_str());
        push_le_bytes(&mut out, self.amount, 8);
        push_framed_text(&mut out, self.sig.as_str());
        out
    }
}

} // verus!
