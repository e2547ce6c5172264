//! The node's data: transactions, blocks, and the constants of the chain.

use vstd::prelude::*;

verus! {

/// Number of leading zero hex digits a block hash must have.
pub const DIFFICULTY: usize = 4;

/// Amount paid to the miner by the coinbase transaction of each block.
pub const BLOCK_REWARD: u64 = 10;

/// Mempool size at which a node mines on its own.
pub const AUTO_MINE_THRESHOLD: usize = 3;

/// Timestamp (milliseconds) of the genesis block.
pub const GENESIS_TIMESTAMP: u64 = 1743086300000;

/// Placeholder public key and signature of a coinbase transaction.
pub const ZEROS: &'static str = "0000000000000000000000000000000000000000000000000000000000000000000000000000000000000000000000000000000000000000000000000000000000";

/// A transfer or coinbase transaction.  Strings keep the wire format of the
/// node's JSON API (`type` and `publicKey` there).
#[derive(Debug)]
pub struct Transaction {
    pub id: String,
    pub tx_type: String,
    pub from: String,
    pub to: String,
    pub amount: u64,
    pub timestamp: u64,
    pub public_key: String,
    pub signature: String,
}

/// A block of the chain.
#[derive(Debug)]
pub struct Block {
    pub index: u64,
    pub timestamp: u64,
    pub transactions: Vec<Transaction>,
    pub previous_hash: String,
    pub hash: String,
    pub nonce: u64,
}


impl Clone for Transaction {
    fn clone(&self) -> (r: Self)
        ensures
            r == *self,
    {
        Transaction {
            id: self.id.clone(),
            tx_type: self.tx_type.clone(),
            from: self.from.clone(),
            to: self.to.clone(),
            amount: self.amount,
            timestamp: self.timestamp,
            public_key: self.public_key.clone(),
            signature: self.signature.clone(),
        }
    }
}

impl Block {
    /// Equal fields, with transactions compared by their views.
    pub open spec fn same(self, other: Block) -> bool {
        &&& self.index == other.index
        &&& self.timestamp == other.timestamp
        &&& self.transactions@ == other.transactions@
        &&& self.previous_hash == other.previous_hash
        &&& self.hash == other.hash
        &&& self.nonce == other.nonce
    }
}

impl Clone for Block {
    fn clone(&self) -> (r: Self)
        ensures
            r.same(*self),
    {
        let transactions = self.transactions.clone();
        assert forall|i: int| 0 <= i < self.transactions@.len() implies transactions@[i]
            == self.transactions@[i] by {
            assert(cloned::<Transaction>(self.transactions[i], transactions[i]));
        }
        assert(transactions@ =~= self.transactions@);
        Block {
            index: self.index,
            timestamp: self.timestamp,
            transactions,
            previous_hash: self.previous_hash.clone(),
            hash: self.hash.clone(),
            nonce: self.nonce,
        }
    }
}

} // verus!
