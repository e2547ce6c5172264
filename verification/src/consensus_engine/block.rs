//! Blocks of the consensus engine, hashed over a text of their fields.

use crate::consensus_engine::transaction::{transaction_debug, Transaction};
use crate::digest::{hex_encode, hex_lower, sha256, sha256_digest};
use crate::text::{
    debug_list, decimal, i64_to_decimal, join, lemma_join_push, signed_decimal, u64_to_decimal,
};
use vstd::prelude::*;
use vstd::string::StringSliceAdditionalSpecFns;
use vstd::utf8::encode_utf8;

verus! {

/// A block: index, creation time in milliseconds, transactions, link to
/// the previous block, its own hash and the proof-of-work nonce.
#[derive(Debug)]
pub struct Block {
    pub index: u64,
    pub timestamp: i64,
    pub transactions: Vec<Transaction>,
    pub previous_hash: String,
    pub hash: String,
    pub nonce: u64,
}

/// The text a block is hashed over:
/// `{index}{timestamp}{transactions:?}{previous_hash}{nonce}`.
pub open spec fn block_text(index: u64, timestamp: i64, txs: Seq<Transaction>, previous_hash: Seq<char>, nonce: u64) -> Seq<char> {
    decimal(index as nat) + signed_decimal(timestamp as int) + debug_list(
        txs.map_values(|t: Transaction| transaction_debug(t)),
    ) + previous_hash + decimal(nonce as nat)
}

/// The hash of a block's fields (its own hash field aside): lower-case hex
/// of the SHA-256 of the UTF-8 bytes of its text.
pub open spec fn block_digest(b: Block) -> Seq<char> {
    hex_lower(sha256(encode_utf8(block_text(b.index, b.timestamp, b.transactions@, b.previous_hash@, b.nonce))))
}

/// Calls `chrono::Utc::now` and returns the milliseconds since the Unix
/// epoch.  Nothing is claimed of the value.
#[verifier::external_body]
fn now_millis() -> i64 {
    chrono::Utc::now().timestamp_millis()
}

fn append_transactions_debug(out: &mut String, txs: &[Transaction])
    ensures
        final(out)@ == old(out)@ + debug_list(txs@.map_values(|t: Transaction| transaction_debug(t))),
{
    let ghost items = txs@.map_values(|t: Transaction| transaction_debug(t));
    let ghost start = out@;
    out.append("[");
    let mut i: usize = 0;
    while i < txs.len()
        invariant
            0 <= i <= txs@.len(),
            items == txs@.map_values(|t: Transaction| transaction_debug(t)),
            out@ == start + "["@ + join(items.take(i as int), ", "@),
        decreases txs@.len() - i,
    {
        proof {
            lemma_join_push(items, ", "@, i as int);
        }
        if i > 0 {
            out.append(", ");
        }
        out.append(txs[i].debug_text().as_str());
        i = i + 1;
    }
    assert(items.take(txs@.len() as int) =~= items);
    out.append("]");
}

impl Block {
    /// Makes a block created at `timestamp`, nonce 0, hashed.
    pub fn new_at(index: u64, transactions: Vec<Transaction>, previous_hash: String, timestamp: i64) -> (b: Block)
        ensures
            b.index == index,
            b.timestamp == timestamp,
            b.transactions@ == transactions@,
            b.previous_hash == previous_hash,
            b.nonce == 0,
            b.hash@ == block_digest(b),
    {
        let mut b = Block { index, timestamp, transactions, previous_hash, hash: String::new(), nonce: 0 };
        b.hash = b.calculate_hash();
        b
    }

    /// Makes a block created now, nonce 0, hashed.
    pub fn new(index: u64, transactions: Vec<Transaction>, previous_hash: String) -> (b: Block)
        ensures
            b.index == index,
            b.transactions@ == transactions@,
            b.previous_hash == previous_hash,
            b.nonce == 0,
            b.hash@ == block_digest(b),
    {
        Self::new_at(index, transactions, previous_hash, now_millis())
    }

    /// The hash of the block's fields.
    pub fn calculate_hash(&self) -> (h: String)
        ensures
            h@ == block_digest(*self),
            h@.len() == 64,
    {
        let mut data = u64_to_decimal(self.index);
        data.append(i64_to_decimal(self.timestamp).as_str());
        append_transactions_debug(&mut data, self.transactions.as_slice());
        data.append(self.previous_hash.as_str());
        data.append(u64_to_decimal(self.nonce).as_str());
        let digest = sha256_digest(data.as_str().as_bytes());
        hex_encode(digest.as_slice())
    }
}

impl Block {
    /// Equal fields, with transactions compared by their views.
    pub open spec fn same(self, other: Block) -> bool {
        &&& self.index == other.index
        &&& self.timestamp == other.timestamp
        &&& self.transactions@ == other.transactions@
        &&& self.previous_hash == other.previous_hash
        &&& self.hash == other.hash
        &&& self.nonce == other.nonce
    }
}

impl Clone for Block {
    fn clone(&self) -> (r: Self)
        ensures
            r.same(*self),
    {
        let transactions = self.transactions.clone();
        assert forall|i: int| 0 <= i < self.transactions@.len() implies transactions@[i]
            == self.transactions@[i] by {
            assert(cloned::<Transaction>(self.transactions[i], transactions[i]));
        }
        assert(transactions@ =~= self.transactions@);
        Block {
            index: self.index,
            timestamp: self.timestamp,
            transactions,
            previous_hash: self.previous_hash.clone(),
            hash: self.hash.clone(),
            nonce: self.nonce,
        }
    }
}

/// Whether two lists of blocks hold the same blocks in the same order.
pub open spec fn same_blocks(a: Seq<Block>, b: Seq<Block>) -> bool {
    a.len() == b.len() && forall|i: int| 0 <= i < a.len() ==> #[trigger] a[i].same(b[i])
}

/// Copies a list of blocks.
pub fn clone_blocks(blocks: &Vec<Block>) -> (r: Vec<Block>)
    ensures
        same_blocks(r@, blocks@),
{
    let mut r: Vec<Block> = Vec::new();
    let mut i: usize = 0;
    while i < blocks.len()
        invariant
            0 <= i <= blocks@.len(),
            r@.len() == i,
            forall|j: int| 0 <= j < i ==> #[trigger] r@[j].same(blocks@[j]),
        decreases blocks@.len() - i,
    {
        r.push(blocks[i].clone());
        i = i + 1;
    }
    r
}

/// A block's own hash field does not enter its hash: setting it keeps
/// `calculate_hash` as it was.
pub proof fn lemma_digest_ignores_hash(b: Block, h: String)
    ensures
        block_digest(Block { hash: h, ..b }) == block_digest(b),
{
}

} // verus!
