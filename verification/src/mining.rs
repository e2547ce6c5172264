//! Proof of work: the difficulty target, the nonce search, the genesis
//! block and the mining of new blocks.

use crate::crypto::{block_hash, compute_block_hash};
use crate::text::{owned, starts_with};
use crate::types::{Block, Transaction, DIFFICULTY, GENESIS_TIMESTAMP};
use vstd::prelude::*;

verus! {

/// The prefix a block hash must have: `DIFFICULTY` zeros.
pub open spec fn difficulty_zeros() -> Seq<char> {
    Seq::new(DIFFICULTY as nat, |i: int| '0')
}

/// Whether a hash meets the difficulty target.
pub open spec fn meets_difficulty(hash: Seq<char>) -> bool {
    difficulty_zeros().is_prefix_of(hash)
}

/// The difficulty prefix as a string.
pub fn difficulty_prefix() -> (p: String)
    ensures
        p@ == difficulty_zeros(),
{
    let mut p = String::new();
    let mut i: usize = 0;
    proof {
        reveal_strlit("0");
    }
    while i < DIFFICULTY
        invariant
            0 <= i <= DIFFICULTY,
            p@ =~= Seq::new(i as nat, |j: int| '0'),
        decreases DIFFICULTY - i,
    {
        proof {
            reveal_strlit("0");
        }
        p.append("0");
        i = i + 1;
    }
    p
}

/// Whether `nonce` is the smallest nonce that gives a block with these
/// fields a hash meeting the difficulty target.
pub open spec fn least_nonce(index: u64, timestamp: u64, prev_hash: Seq<char>, txs: Seq<Transaction>, nonce: u64) -> bool {
    &&& meets_difficulty(block_hash(index, timestamp, prev_hash, nonce, txs))
    &&& forall|m: u64| m < nonce ==> !meets_difficulty(#[trigger] block_hash(index, timestamp, prev_hash, m, txs))
}

/// Searches the nonces upward from 0 for the first that meets the
/// difficulty target, returning it with the hash; `None` when no 64-bit
/// nonce does.
pub fn find_nonce(index: u64, timestamp: u64, prev_hash: &str, txs: &[Transaction]) -> (r: Option<(u64, String)>)
    ensures
        match r {
            Some((nonce, hash)) => {
                &&& least_nonce(index, timestamp, prev_hash@, txs@, nonce)
                &&& hash@ == block_hash(index, timestamp, prev_hash@, nonce, txs@)
            },
            None => forall|m: u64| !meets_difficulty(#[trigger] block_hash(index, timestamp, prev_hash@, m, txs@)),
        },
{
    let prefix = difficulty_prefix();
    let mut nonce: u64 = 0;
    loop
        invariant
            prefix@ == difficulty_zeros(),
            forall|m: u64| m < nonce ==> !meets_difficulty(#[trigger] block_hash(index, timestamp, prev_hash@, m, txs@)),
        decreases u64::MAX - nonce,
    {
        let hash = compute_block_hash(index, timestamp, prev_hash, nonce, txs);
        if starts_with(hash.as_str(), prefix.as_str()) {
            return Some((nonce, hash));
        }
        if nonce == u64::MAX {
            return None;
        }
        nonce = nonce + 1;
    }
}

/// What the genesis block is: index 0 at the genesis timestamp, no
/// transactions, previous hash `"0"`, and the least nonce that meets the
/// difficulty target with its hash.
pub open spec fn is_genesis(b: Block) -> bool {
    &&& b.index == 0
    &&& b.timestamp == GENESIS_TIMESTAMP
    &&& b.transactions@.len() == 0
    &&& b.previous_hash@ == "0"@
    &&& least_nonce(0, GENESIS_TIMESTAMP, "0"@, Seq::empty(), b.nonce)
    &&& b.hash@ == block_hash(0, GENESIS_TIMESTAMP, "0"@, b.nonce, Seq::empty())
}

/// Mines the genesis block; `None` only if no 64-bit nonce meets the
/// difficulty target.
pub fn create_genesis() -> (r: Option<Block>)
    ensures
        match r {
            Some(b) => is_genesis(b),
            None => forall|m: u64| !meets_difficulty(#[trigger] block_hash(0, GENESIS_TIMESTAMP, "0"@, m, Seq::empty())),
        },
{
    let txs: Vec<Transaction> = Vec::new();
    assert(txs@ =~= Seq::<Transaction>::empty());
    match find_nonce(0, GENESIS_TIMESTAMP, "0", txs.as_slice()) {
        Some((nonce, hash)) => Some(Block {
            index: 0,
            timestamp: GENESIS_TIMESTAMP,
            transactions: txs,
            previous_hash: owned("0"),
            hash,
            nonce,
        }),
        None => None,
    }
}

} // verus!
