//! A block store kept in memory.

use crate::consensus_engine::block::{clone_blocks, same_blocks, Block};
use crate::consensus_engine::traits::Storage;
use crate::text::str_eq;
use vstd::prelude::*;

verus! {

/// The chain, oldest block first.
pub struct InMemoryStorage {
    chain: Vec<Block>,
}

impl InMemoryStorage {
    /// The stored blocks, oldest first.
    pub closed spec fn blocks(&self) -> Seq<Block> {
        self.chain@
    }

    /// An empty store.
    pub fn new() -> (s: InMemoryStorage)
        ensures
            s.blocks() == Seq::<Block>::empty(),
    {
        let s = InMemoryStorage { chain: Vec::new() };
        assert(s.blocks() =~= Seq::<Block>::empty());
        s
    }
}

impl Storage for InMemoryStorage {
    /// A copy of the newest block; `None` when the store is empty.
    fn get_last_block(&self) -> (r: Option<Block>)
        ensures
            match r {
                Some(b) => self.blocks().len() > 0 && b.same(self.blocks().last()),
                None => self.blocks().len() == 0,
            },
    {
        if self.chain.len() == 0 {
            None
        } else {
            Some(self.chain[self.chain.len() - 1].clone())
        }
    }

    /// A copy of the oldest stored block whose hash is `block`'s hash.
    fn get_block(&self, block: &Block) -> (r: Option<Block>)
        ensures
            match r {
                Some(b) => exists|i: int|
                    0 <= i < self.blocks().len() && self.blocks()[i].hash@ == block.hash@ && b.same(
                        #[trigger] self.blocks()[i],
                    ) && forall|j: int| 0 <= j < i ==> #[trigger] self.blocks()[j].hash@ != block.hash@,
                None => forall|i: int| 0 <= i < self.blocks().len() ==> #[trigger] self.blocks()[i].hash@ != block.hash@,
            },
    {
        let mut i: usize = 0;
        while i < self.chain.len()
            invariant
                0 <= i <= self.chain@.len(),
                forall|j: int| 0 <= j < i ==> #[trigger] self.chain@[j].hash@ != block.hash@,
            decreases self.chain@.len() - i,
        {
            if str_eq(self.chain[i].hash.as_str(), block.hash.as_str()) {
                let b = self.chain[i].clone();
                assert(self.blocks()[i as int].hash@ == block.hash@);
                return Some(b);
            }
            i = i + 1;
        }
        None
    }

    /// A copy of the whole chain.
    fn get_chain(&self, block: &Block) -> (r: Vec<Block>)
        ensures
            same_blocks(r@, self.blocks()),
    {
        clone_blocks(&self.chain)
    }

    /// Appends a copy of `block`.
    fn save(&mut self, block: &Block)
        ensures
            final(self).blocks().len() == old(self).blocks().len() + 1,
            final(self).blocks().drop_last() == old(self).blocks(),
            final(self).blocks().last().same(*block),
    {
        self.chain.push(block.clone());
        assert(self.blocks().drop_last() =~= old(self).blocks());
    }

    /// Stores a copy of `chain` in place of the current one and hands
    /// `chain` back.
    fn replace_chain(&mut self, block: Block, chain: Vec<Block>) -> (r: Vec<Block>)
        ensures
            same_blocks(final(self).blocks(), chain@),
            r@ == chain@,
    {
        self.chain = clone_blocks(&chain);
        chain
    }
}

} // verus!
