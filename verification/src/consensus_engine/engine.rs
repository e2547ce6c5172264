//! The engine that mines a candidate block of pending transactions on top
//! of the last block and keeps the result only if its validator accepts
//! it.

use crate::common::ports::Hasher;
use crate::common::types::{header_bytes, merkle_root, txs_view, Block, Tx};
use crate::consensus_engine::ports::{BlockValidator, Miner};
use vstd::prelude::*;

verus! {

/// Whether `c` is the candidate the engine builds from `txs` on top of
/// `last`: version 0, linked to the hash of `last`'s header, nonce 0, the
/// Merkle root of `txs`, and `txs` themselves (its time is the clock's).
pub open spec fn engine_candidate<H: Hasher + ?Sized>(c: Block, txs: Seq<Tx>, last: Block, hasher: &H) -> bool {
    &&& c.header.version == 0
    &&& c.header.prev_hash == hasher.spec_hash(header_bytes(last.header))
    &&& c.header.nonce == 0
    &&& c.header.merkle_root == merkle_root(hasher, txs_view(txs))
    &&& c.txs@ == txs
}

/// A miner, a validator and the difficulty to mine at.
pub struct Engine<M: Miner + ?Sized, V: BlockValidator + ?Sized> {
    miner: Box<M>,
    validator: Box<V>,
    difficulty: usize,
}

impl<M: Miner + ?Sized, V: BlockValidator + ?Sized> Engine<M, V> {
    /// Whether the engine's validator accepts `candidate` after `prev`.
    pub closed spec fn accepts(&self, prev: Block, candidate: Block) -> bool {
        self.validator.accepts(prev, candidate)
    }

    /// Whether the engine's miner may return `mined` for `block` at the
    /// engine's difficulty.
    pub closed spec fn may_mine(&self, block: Block, mined: Block) -> bool {
        self.miner.may_mine(block, self.difficulty, mined)
    }

    /// The difficulty the engine mines at.
    pub closed spec fn spec_difficulty(&self) -> usize {
        self.difficulty
    }

    /// An engine with this miner, validator and difficulty.
    pub fn new(miner: Box<M>, validator: Box<V>, difficulty: usize) -> (e: Self)
        ensures
            e.spec_difficulty() == difficulty,
            forall|p: Block, c: Block| #[trigger] e.accepts(p, c) == validator.accepts(p, c),
            forall|b: Block, m: Block| #[trigger] e.may_mine(b, m) == miner.may_mine(b, difficulty, m),
    {
        Engine { miner, validator, difficulty }
    }

    /// Whether the validator accepts `candidate_block` after `prev_block`.
    pub fn validate(&self, prev_block: &Block, candidate_block: &Block) -> (r: bool)
        ensures
            r == self.accepts(*prev_block, *candidate_block),
    {
        self.validator.validate(prev_block, candidate_block)
    }

    /// Builds the candidate of `txs` on top of `last_block`, has it mined,
    /// and returns the mined block when the validator accepts it after
    /// `last_block`, `None` when it does not.
    pub fn mine<H: Hasher + ?Sized>(&mut self, txs: Vec<Tx>, last_block: Block, hasher: &H) -> (r: Option<Block>)
        ensures
            *final(self) == *old(self),
            match r {
                Some(b) => exists|c: Block|
                    engine_candidate(c, txs@, last_block, hasher) && #[trigger] old(self).may_mine(c, b) && old(
                        self,
                    ).accepts(last_block, b),
                None => exists|c: Block, b: Block|
                    engine_candidate(c, txs@, last_block, hasher) && #[trigger] old(self).may_mine(c, b) && !old(
                        self,
                    ).accepts(last_block, b),
            },
    {
        let ghost tv = txs@;
        let prev_hash = last_block.hash(hasher);
        let candidate = Block::new(0, prev_hash, 0, txs, hasher);
        let ghost c = candidate;
        let mined = self.miner.mine(candidate, self.difficulty);
        let valid = self.validate(&last_block, &mined);
        assert(engine_candidate(c, tv, last_block, hasher));
        assert(self.may_mine(c, mined));
        if valid {
            let r = Some(mined);
            assert(self.may_mine(c, r->0) && self.accepts(last_block, r->0));
            r
        } else {
            None
        }
    }
}

} // verus!
