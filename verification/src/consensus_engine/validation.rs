//! Rules a block and a chain of the consensus engine must meet.

use crate::consensus_engine::block::{block_digest, Block};
use vstd::prelude::*;

verus! {

/// Whether `current` is accepted after `previous`.  A first block (no
/// previous one) must have index 0, an empty link and the hash of its own
/// fields.  A block after another must carry the next index; its hash and
/// its link are not looked at.
pub open spec fn block_accepted(current: Block, previous: Option<Block>) -> bool {
    match previous {
        None => current.index == 0 && current.previous_hash@.len() == 0 && current.hash@ == block_digest(current),
        Some(p) => current.index == p.index + 1,
    }
}

/// Whether the first `n` blocks of `chain` pass, each after the one
/// before it.
pub open spec fn chain_prefix_accepted(chain: Seq<Block>, n: int) -> bool {
    &&& 0 < n <= chain.len()
    &&& block_accepted(chain[0], None)
    &&& forall|i: int| 1 <= i < n ==> #[trigger] block_accepted(chain[i], Some(chain[i - 1]))
}

/// Whether a whole chain passes: it is non-empty, its first block is a
/// valid first block, and each other block is accepted after the one
/// before it.
pub open spec fn chain_accepted(chain: Seq<Block>) -> bool {
    chain_prefix_accepted(chain, chain.len() as int)
}

/// Checks single blocks.
pub struct BlockValidator;

impl BlockValidator {
    /// Whether `current` is accepted after `previous`.
    pub fn validate(current: &Block, previous: Option<&Block>) -> (r: bool)
        requires
            previous matches Some(p) ==> p.index < u64::MAX,
        ensures
            r == block_accepted(
                *current,
                match previous {
                    Some(p) => Some(*p),
                    None => None,
                },
            ),
    {
        match previous {
            None => {
                current.index == 0 && current.previous_hash.as_str().is_empty() && current.hash
                    == current.calculate_hash()
            },
            Some(previous) => current.index == previous.index + 1,
        }
    }
}

/// Checks whole chains.
pub struct ChainValidator;

impl ChainValidator {
    /// Whether the chain passes, block by block.
    pub fn validate(chain: &Vec<Block>) -> (r: bool)
        requires
            forall|i: int|
                0 <= i < chain@.len() - 1 && chain_prefix_accepted(chain@, i + 1) ==> #[trigger] chain@[i].index
                    < u64::MAX,
        ensures
            r == chain_accepted(chain@),
    {
        if chain.len() == 0 {
            return false;
        }
        if !BlockValidator::validate(&chain[0], None) {
            return false;
        }
        let mut i: usize = 1;
        while i < chain.len()
            invariant
                1 <= i <= chain@.len(),
                chain_prefix_accepted(chain@, i as int),
                forall|k: int|
                    0 <= k < chain@.len() - 1 && chain_prefix_accepted(chain@, k + 1) ==> #[trigger] chain@[k].index
                        < u64::MAX,
            decreases chain@.len() - i,
        {
            assert(chain@[i - 1].index < u64::MAX);
            if !BlockValidator::validate(&chain[i], Some(&chain[i - 1])) {
                assert(!block_accepted(chain@[i as int], Some(chain@[i - 1])));
                return false;
            }
            i = i + 1;
        }
        true
    }
}

/// A chain that passes still passes after a block accepted after its last
/// block is appended.
pub proof fn lemma_chain_extend(chain: Seq<Block>, b: Block)
    requires
        chain_accepted(chain),
        block_accepted(b, Some(chain.last())),
    ensures
        chain_accepted(chain.push(b)),
{
    let c2 = chain.push(b);
    assert(c2[0] == chain[0]);
    assert forall|i: int| 1 <= i < c2.len() implies #[trigger] block_accepted(c2[i], Some(c2[i - 1])) by {
        if i < chain.len() {
            assert(c2[i] == chain[i] && c2[i - 1] == chain[i - 1]);
        }
    }
}

/// Every non-empty prefix of a chain that passes passes too.
pub proof fn lemma_chain_prefix(chain: Seq<Block>, k: int)
    requires
        chain_accepted(chain),
        0 < k <= chain.len(),
    ensures
        chain_accepted(chain.take(k)),
{
    let p = chain.take(k);
    assert(p[0] == chain[0]);
    assert forall|i: int| 1 <= i < p.len() implies #[trigger] block_accepted(p[i], Some(p[i - 1])) by {
        assert(p[i] == chain[i] && p[i - 1] == chain[i - 1]);
    }
}

} // verus!
