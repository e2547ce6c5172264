//! A plain block whose transactions are strings, hashed over a text of its
//! fields, and rehashed after its nonce changes.

use crate::digest::{hex_encode, hex_lower, sha256, sha256_digest};
use crate::text::{debug_list, debug_str, debug_text, decimal, join, lemma_join_push, u128_to_decimal, u64_to_decimal};
use vstd::prelude::*;
use vstd::string::StringSliceAdditionalSpecFns;
use vstd::utf8::encode_utf8;

verus! {

/// A block: index, creation time in milliseconds, transactions, link to
/// the previous block, proof-of-work nonce and its own hash.
#[derive(Debug)]
pub struct Block {
    pub index: u64,
    pub timestamp: u128,
    pub transactions: Vec<String>,
    pub previous_hash: String,
    pub nonce: u64,
    pub hash: String,
}

/// The views of a list of strings.
pub open spec fn texts(ts: Seq<String>) -> Seq<Seq<char>> {
    ts.map_values(|t: String| t@)
}

/// The text a block is hashed over:
/// `{index}{timestamp}{transactions:?}{previous_hash}{nonce}`.
pub open spec fn block_text(b: Block) -> Seq<char> {
    decimal(b.index as nat) + decimal(b.timestamp as nat) + debug_list(
        texts(b.transactions@).map_values(|t: Seq<char>| debug_text(t)),
    ) + b.previous_hash@ + decimal(b.nonce as nat)
}

/// The hash of a block's fields: lower-case hex of the SHA-256 of the
/// UTF-8 bytes of its text.
pub open spec fn block_digest(b: Block) -> Seq<char> {
    hex_lower(sha256(encode_utf8(block_text(b))))
}

/// Calls `SystemTime::now` and returns the milliseconds since the Unix
/// epoch.  Nothing is claimed of the value.
#[verifier::external_body]
fn current_timestamp() -> u128 {
    std::time::SystemTime::now().duration_since(std::time::UNIX_EPOCH).unwrap().as_millis()
}

fn append_strings_debug(out: &mut String, ts: &Vec<String>)
    ensures
        final(out)@ == old(out)@ + debug_list(texts(ts@).map_values(|t: Seq<char>| debug_text(t))),
{
    let ghost items = texts(ts@).map_values(|t: Seq<char>| debug_text(t));
    let ghost start = out@;
    out.append("[");
    let mut i: usize = 0;
    while i < ts.len()
        invariant
            0 <= i <= ts@.len(),
            items == texts(ts@).map_values(|t: Seq<char>| debug_text(t)),
            out@ == start + "["@ + join(items.take(i as int), ", "@),
        decreases ts@.len() - i,
    {
        proof {
            lemma_join_push(items, ", "@, i as int);
        }
        if i > 0 {
            out.append(", ");
        }
        out.append(debug_str(ts[i].as_str()).as_str());
        i = i + 1;
    }
    assert(items.take(ts@.len() as int) =~= items);
    out.append("]");
}

impl Block {
    /// Makes a block created at `timestamp`, nonce 0, hashed.
    pub fn new_at(index: u64, transactions: Vec<String>, previous_hash: String, timestamp: u128) -> (b: Block)
        ensures
            b.index == index,
            b.timestamp == timestamp,
            b.transactions@ == transactions@,
            b.previous_hash == previous_hash,
            b.nonce == 0,
            b.hash@ == block_digest(b),
    {
        let mut block = Block { index, timestamp, transactions, previous_hash, nonce: 0, hash: String::new() };
        block.hash = block.calculate_hash();
        block
    }

    /// Makes a block created now, nonce 0, hashed.
    pub fn new(index: u64, transactions: Vec<String>, previous_hash: String) -> (b: Block)
        ensures
            b.index == index,
            b.transactions@ == transactions@,
            b.previous_hash == previous_hash,
            b.nonce == 0,
            b.hash@ == block_digest(b),
    {
        Self::new_at(index, transactions, previous_hash, current_timestamp())
    }

    /// The hash of the block's fields.
    pub fn calculate_hash(&self) -> (h: String)
        ensures
            h@ == block_digest(*self),
    {
        let mut data = u64_to_decimal(self.index);
        data.append(u128_to_decimal(self.timestamp).as_str());
        append_strings_debug(&mut data, &self.transactions);
        data.append(self.previous_hash.as_str());
        data.append(u64_to_decimal(self.nonce).as_str());
        let digest = sha256_digest(data.as_str().as_bytes());
        hex_encode(digest.as_slice())
    }

    /// Sets the hash to the hash of the block's fields, after they changed.
    pub fn update_hash(&mut self)
        ensures
            final(self).index == old(self).index,
            final(self).timestamp == old(self).timestamp,
            final(self).transactions == old(self).transactions,
            final(self).previous_hash == old(self).previous_hash,
            final(self).nonce == old(self).nonce,
            final(self).hash@ == block_digest(*old(self)),
    {
        self.hash = self.calculate_hash();
    }
}

/// A block's own hash field does not enter its hash, so updating the hash
/// of a block whose hash is current changes nothing.
pub proof fn lemma_update_hash_stable(b: Block, h: String)
    ensures
        block_digest(Block { hash: h, ..b }) == block_digest(b),
{
}

} // verus!
