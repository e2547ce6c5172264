//! The consensus engine's proof-of-work miner.

use crate::consensus_engine::block::{block_digest, Block};
use crate::consensus_engine::validation::block_accepted;
use crate::consensus_engine::traits::Miner;
use crate::text::starts_with;
use vstd::prelude::*;

verus! {

/// `n` zeros.
pub open spec fn zeros(n: nat) -> Seq<char> {
    Seq::new(n, |i: int| '0')
}

/// Whether a hash starts with `difficulty` zeros.
pub open spec fn meets(hash: Seq<char>, difficulty: nat) -> bool {
    zeros(difficulty).is_prefix_of(hash)
}

/// The block with its nonce set to `nonce`.
pub open spec fn with_nonce(b: Block, nonce: u64) -> Block {
    Block { nonce, ..b }
}

/// Whether `nonce` is the least nonce, not below the block's own, that gives
/// the block a hash with `difficulty` leading zeros.
pub open spec fn least_nonce_from(b: Block, difficulty: nat, nonce: u64) -> bool {
    &&& b.nonce <= nonce
    &&& meets(block_digest(with_nonce(b, nonce)), difficulty)
    &&& forall|m: u64| b.nonce <= m < nonce ==> !meets(#[trigger] block_digest(with_nonce(b, m)), difficulty)
}

fn zero_string(n: usize) -> (s: String)
    ensures
        s@ == zeros(n as nat),
{
    let mut s = String::new();
    let mut i: usize = 0;
    while i < n
        invariant
            0 <= i <= n,
            s@ =~= zeros(i as nat),
        decreases n - i,
    {
        proof {
            reveal_strlit("0");
        }
        s.append("0");
        i = i + 1;
    }
    s
}

/// Mines by trying nonces upward from the block's own.
pub struct BlockMiner;

impl Miner for BlockMiner {
    /// Tries the nonces from the block's own upward; the first whose hash
    /// has `difficulty` leading zeros is kept, with that hash.  `None` when
    /// no nonce up to the largest `u64` does.
    fn mine(&self, block: Block, difficulty: usize) -> (r: Option<Block>)
        ensures
            match r {
                Some(m) => {
                    &&& least_nonce_from(block, difficulty as nat, m.nonce)
                    &&& m.same(Block { nonce: m.nonce, hash: m.hash, ..block })
                    &&& m.hash@ == block_digest(with_nonce(block, m.nonce))
                },
                None => forall|n: u64| block.nonce <= n ==> !meets(#[trigger] block_digest(with_nonce(block, n)), difficulty as nat),
            },
    {
        let target = zero_string(difficulty);
        let ghost start = block;
        let mut candidate = block;
        loop
            invariant
                start == block,
                target@ == zeros(difficulty as nat),
                start.nonce <= candidate.nonce,
                candidate == with_nonce(start, candidate.nonce),
                forall|m: u64| start.nonce <= m < candidate.nonce ==> !meets(#[trigger] block_digest(with_nonce(start, m)), difficulty as nat),
            decreases u64::MAX - candidate.nonce,
        {
            let hash = candidate.calculate_hash();
            assert(hash@ == block_digest(with_nonce(start, candidate.nonce)));
            if starts_with(hash.as_str(), target.as_str()) {
                let ghost n = candidate.nonce;
                candidate.hash = hash;
                assert(candidate.same(Block { nonce: n, hash: candidate.hash, ..start }));
                assert(least_nonce_from(start, difficulty as nat, n));
                return Some(candidate);
            }
            if candidate.nonce == u64::MAX {
                assert forall|n: u64| start.nonce <= n implies !meets(#[trigger] block_digest(with_nonce(start, n)), difficulty as nat) by {
                    if n == u64::MAX {
                        assert(with_nonce(start, n) == with_nonce(start, candidate.nonce));
                    }
                }
                return None;
            }
            candidate.nonce = candidate.nonce + 1;
        }
    }
}

/// What a block `mine` returned is: its hash is the hash recalculated from
/// its fields, it has the leading zeros asked for, its link is the one it
/// was given, and the validator accepts it after any block it was accepted
/// after before mining.
pub proof fn lemma_mined_block_checks(prev: Block, block: Block, mined: Block, difficulty: nat)
    requires
        least_nonce_from(block, difficulty, mined.nonce),
        mined.same(Block { nonce: mined.nonce, hash: mined.hash, ..block }),
        mined.hash@ == block_digest(with_nonce(block, mined.nonce)),
    ensures
        mined.hash@ == block_digest(mined),
        meets(mined.hash@, difficulty),
        mined.previous_hash == block.previous_hash,
        mined.index == block.index,
        block_accepted(block, Some(prev)) ==> block_accepted(mined, Some(prev)),
{
    assert(mined.transactions@ == block.transactions@);
    assert(block_digest(mined) == block_digest(with_nonce(block, mined.nonce)));
}

} // verus!
