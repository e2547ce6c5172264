//! The node's state and the decisions its API makes on it: accepting a
//! transaction, accepting a block from a peer, mining, registering peers
//! and adopting a longer chain.  Network and HTTP work stays with the
//! caller, which performs the action each decision returns.

use crate::crypto::now_ms;
use crate::mining::find_nonce;
use crate::text::{owned, str_eq, trim, trim_end_slash, trim_end_slashes, trim_ws};
use crate::types::{Block, Transaction, AUTO_MINE_THRESHOLD, BLOCK_REWARD, ZEROS};
use crate::validation::{
    block_check, chain_valid, coinbase_check, coinbase_count, lemma_coinbase_count_cons, lemma_no_coinbase,
    lemma_transfers_all_ok, lemma_zeros_zero_filled, transfer_check, validate_block, validate_full_chain,
    validate_transfer,
};
use crate::wallet::Wallet;
use vstd::prelude::*;

verus! {

/// Everything a node holds.
pub struct AppState {
    pub chain: Vec<Block>,
    pub mempool: Vec<Transaction>,
    pub peers: Vec<String>,
    pub wallet: Wallet,
    pub node_url: String,
}

/// What the node reports of its chain and its peers.
pub struct NodeStatus {
    pub chain_length: usize,
    pub latest_hash: String,
    pub peer_count: usize,
}

impl AppState {
    /// A node whose chain is `genesis` alone, with no pending transaction
    /// and no peer.
    pub fn new(wallet: Wallet, node_url: String, genesis: Block) -> (s: AppState)
        ensures
            s.chain@ == seq![genesis],
            s.mempool@.len() == 0,
            s.peers@.len() == 0,
            s.wallet == wallet,
            s.node_url == node_url,
    {
        let mut chain: Vec<Block> = Vec::new();
        chain.push(genesis);
        AppState { chain, mempool: Vec::new(), peers: Vec::new(), wallet, node_url }
    }

    /// The chain's length and newest hash (empty for an empty chain), and
    /// the number of peers.
    pub fn status(&self) -> (st: NodeStatus)
        ensures
            st.chain_length == self.chain@.len(),
            st.latest_hash@ == if self.chain@.len() > 0 {
                self.chain@.last().hash@
            } else {
                Seq::<char>::empty()
            },
            st.peer_count == self.peers@.len(),
    {
        let latest_hash = if self.chain.len() > 0 {
            self.chain[self.chain.len() - 1].hash.clone()
        } else {
            String::new()
        };
        NodeStatus { chain_length: self.chain.len(), latest_hash, peer_count: self.peers.len() }
    }
}

/// The views of a list of strings.
pub open spec fn views(v: Seq<String>) -> Seq<Seq<char>> {
    v.map_values(|s: String| s@)
}

/// Whether no two strings of a list are equal.
pub open spec fn distinct_views(v: Seq<String>) -> bool {
    forall|i: int, j: int| 0 <= i < j < v.len() ==> v[i]@ != v[j]@
}

/// Whether a transaction with id `id` is among `txs`.
pub open spec fn has_tx_id(txs: Seq<Transaction>, id: Seq<char>) -> bool {
    exists|k: int| 0 <= k < txs.len() && #[trigger] txs[k].id@ == id
}

/// Whether a transaction with id `id` is in some block of `chain`.
pub open spec fn chain_has_tx_id(chain: Seq<Block>, id: Seq<char>) -> bool {
    exists|b: int| 0 <= b < chain.len() && has_tx_id(#[trigger] chain[b].transactions@, id)
}

/// The answer to a submitted transaction.
pub enum TxOutcome {
    /// Refused, with the reason.
    Rejected(String),
    /// Already in the mempool or in the chain; nothing changes.
    AlreadyKnown,
    /// Added to the mempool; `should_mine` when the mempool has reached the
    /// auto-mine threshold.
    Accepted { should_mine: bool },
}

fn has_id(txs: &[Transaction], id: &str) -> (r: bool)
    ensures
        r == has_tx_id(txs@, id@),
{
    let mut i: usize = 0;
    while i < txs.len()
        invariant
            0 <= i <= txs@.len(),
            forall|k: int| 0 <= k < i ==> txs@[k].id@ != id@,
        decreases txs@.len() - i,
    {
        if str_eq(txs[i].id.as_str(), id) {
            return true;
        }
        i = i + 1;
    }
    false
}

fn chain_has_id(chain: &[Block], id: &str) -> (r: bool)
    ensures
        r == chain_has_tx_id(chain@, id@),
{
    let mut i: usize = 0;
    while i < chain.len()
        invariant
            0 <= i <= chain@.len(),
            forall|b: int| 0 <= b < i ==> !has_tx_id(#[trigger] chain@[b].transactions@, id@),
        decreases chain@.len() - i,
    {
        if has_id(chain[i].transactions.as_slice(), id) {
            assert(has_tx_id(chain@[i as int].transactions@, id@));
            return true;
        }
        i = i + 1;
    }
    false
}

impl AppState {
    /// Takes a submitted transaction: refuses a coinbase or an invalid
    /// transfer, ignores one already known, and otherwise adds it to the
    /// mempool.
    pub fn accept_transaction(&mut self, tx: Transaction) -> (r: TxOutcome)
        ensures
            final(self).chain@ == old(self).chain@,
            final(self).peers@ == old(self).peers@,
            final(self).wallet == old(self).wallet,
            final(self).node_url == old(self).node_url,
            match r {
                TxOutcome::Rejected(m) => {
                    &&& final(self).mempool@ == old(self).mempool@
                    &&& (tx.tx_type@ == "COINBASE"@ && m@ == "COINBASE rejected"@)
                        || (tx.tx_type@ != "COINBASE"@ && transfer_check(tx, old(self).chain@) == Err::<(), Seq<char>>(m@))
                },
                TxOutcome::AlreadyKnown => {
                    &&& tx.tx_type@ != "COINBASE"@
                    &&& transfer_check(tx, old(self).chain@) is Ok
                    &&& (has_tx_id(old(self).mempool@, tx.id@) || chain_has_tx_id(old(self).chain@, tx.id@))
                    &&& final(self).mempool@ == old(self).mempool@
                },
                TxOutcome::Accepted { should_mine } => {
                    &&& tx.tx_type@ != "COINBASE"@
                    &&& transfer_check(tx, old(self).chain@) is Ok
                    &&& !has_tx_id(old(self).mempool@, tx.id@)
                    &&& !chain_has_tx_id(old(self).chain@, tx.id@)
                    &&& final(self).mempool@ == old(self).mempool@.push(tx)
                    &&& should_mine == (final(self).mempool@.len() >= AUTO_MINE_THRESHOLD)
                },
            },
    {
        if str_eq(tx.tx_type.as_str(), "COINBASE") {
            return TxOutcome::Rejected(owned("COINBASE rejected"));
        }
        match validate_transfer(&tx, self.chain.as_slice()) {
            Ok(()) => {},
            Err(e) => {
                return TxOutcome::Rejected(e);
            },
        }
        if has_id(self.mempool.as_slice(), tx.id.as_str()) {
            return TxOutcome::AlreadyKnown;
        }
        if chain_has_id(self.chain.as_slice(), tx.id.as_str()) {
            return TxOutcome::AlreadyKnown;
        }
        self.mempool.push(tx);
        let count = self.mempool.len();
        TxOutcome::Accepted { should_mine: count >= AUTO_MINE_THRESHOLD }
    }
}


/// Once the node took a transaction into its mempool, the mempool holds its
/// id, so the same transaction submitted again is answered as already
/// known.
pub proof fn lemma_accepted_is_known(mempool: Seq<Transaction>, tx: Transaction)
    ensures
        has_tx_id(mempool.push(tx), tx.id@),
{
    assert(mempool.push(tx)[mempool.len() as int].id@ == tx.id@);
}

/// Whether `blk` holds a transfer with id `id`.
pub open spec fn mined_transfer_id(blk: Block, id: Seq<char>) -> bool {
    exists|k: int|
        0 <= k < blk.transactions@.len() && #[trigger] blk.transactions@[k].tx_type@ == "TRANSFER"@
            && blk.transactions@[k].id@ == id
}

/// The mempool left once the transfers of `blk` are removed from it.
pub open spec fn mempool_after(mempool: Seq<Transaction>, blk: Block) -> Seq<Transaction> {
    mempool.filter(|t: Transaction| !mined_transfer_id(blk, t.id@))
}

/// Taking a block's transfers out of the mempool leaves no pending
/// transaction with the id of a transfer of the block, keeps every other
/// pending transaction, and adds nothing.
pub proof fn lemma_mempool_after_drops_mined(mempool: Seq<Transaction>, blk: Block)
    ensures
        forall|i: int, k: int|
            0 <= i < mempool_after(mempool, blk).len() && 0 <= k < blk.transactions@.len()
                && blk.transactions@[k].tx_type@ == "TRANSFER"@ ==> #[trigger] mempool_after(mempool, blk)[i].id@
                != #[trigger] blk.transactions@[k].id@,
        forall|i: int|
            0 <= i < mempool.len() && (forall|k: int|
                0 <= k < blk.transactions@.len() && blk.transactions@[k].tx_type@ == "TRANSFER"@
                    ==> #[trigger] blk.transactions@[k].id@ != mempool[i].id@) ==> #[trigger] mempool_after(
                mempool,
                blk,
            ).contains(mempool[i]),
        forall|t: Transaction| #[trigger] mempool_after(mempool, blk).contains(t) ==> mempool.contains(t),
{
    let pred = |t: Transaction| !mined_transfer_id(blk, t.id@);
    let out = mempool_after(mempool, blk);
    assert forall|i: int, k: int|
        0 <= i < out.len() && 0 <= k < blk.transactions@.len() && blk.transactions@[k].tx_type@ == "TRANSFER"@
            implies #[trigger] out[i].id@ != #[trigger] blk.transactions@[k].id@ by {
        mempool.lemma_filter_pred(pred, i);
    }
    assert forall|i: int|
        0 <= i < mempool.len() && (forall|k: int|
            0 <= k < blk.transactions@.len() && blk.transactions@[k].tx_type@ == "TRANSFER"@
                ==> #[trigger] blk.transactions@[k].id@ != mempool[i].id@) implies #[trigger] out.contains(
        mempool[i],
    ) by {
        mempool.lemma_filter_contains(pred, i);
    }
    assert forall|t: Transaction| #[trigger] out.contains(t) implies mempool.contains(t) by {
        mempool.lemma_filter_contains_rev(pred, t);
    }
}

/// The answer to a block announced by a peer.
pub enum BlockOutcome {
    /// Valid successor of the last block: appended.
    Appended { chain_length: usize },
    /// Ahead of this node by more than one block: a resync is due.
    Syncing { chain_length: usize },
    /// Neither: nothing changes.
    Ignored { chain_length: usize },
    /// A successor of the last block that fails validation.
    Invalid,
}

fn is_mined_transfer(blk: &Block, id: &str) -> (r: bool)
    ensures
        r == mined_transfer_id(*blk, id@),
{
    let txs = &blk.transactions;
    let mut i: usize = 0;
    while i < txs.len()
        invariant
            0 <= i <= txs@.len(),
            txs@ == blk.transactions@,
            forall|k: int| 0 <= k < i ==> !(#[trigger] txs@[k].tx_type@ == "TRANSFER"@ && txs@[k].id@ == id@),
        decreases txs@.len() - i,
    {
        if str_eq(txs[i].tx_type.as_str(), "TRANSFER") && str_eq(txs[i].id.as_str(), id) {
            return true;
        }
        i = i + 1;
    }
    false
}

/// Appending a block that is valid against the last block of a valid chain
/// (and the chain before it) gives a valid chain.
pub proof fn lemma_append_valid(chain: Seq<Block>, b: Block)
    requires
        chain_valid(chain),
        block_check(b, Some(chain.last()), chain) is Ok,
    ensures
        chain_valid(chain.push(b)),
{
    let c2 = chain.push(b);
    assert forall|i: int| 0 <= i < c2.len() implies #[trigger] crate::validation::block_valid_at(c2, i) by {
        if i < chain.len() {
            assert(c2.subrange(0, i) =~= chain.subrange(0, i));
            assert(crate::validation::block_valid_at(chain, i));
        } else {
            assert(c2.subrange(0, i) =~= chain);
        }
    }
}

impl AppState {
    /// Takes a block announced by a peer: appends it when it extends the
    /// last block and validates (dropping its transfers from the mempool),
    /// asks for a resync when it is further ahead, and otherwise ignores it.
    /// A valid chain stays valid.
    pub fn accept_block(&mut self, blk: Block) -> (r: BlockOutcome)
        requires
            old(self).chain@.len() > 0,
        ensures
            final(self).peers@ == old(self).peers@,
            final(self).wallet == old(self).wallet,
            final(self).node_url == old(self).node_url,
            ({
                let last = old(self).chain@.last();
                if blk.index == last.index + 1 && blk.previous_hash@ == last.hash@ {
                    if block_check(blk, Some(last), old(self).chain@) is Ok {
                        &&& final(self).chain@.len() == old(self).chain@.len() + 1
                        &&& final(self).chain@.drop_last() == old(self).chain@
                        &&& final(self).chain@.last().same(blk)
                        &&& final(self).mempool@ == mempool_after(old(self).mempool@, blk)
                        &&& r == BlockOutcome::Appended { chain_length: final(self).chain@.len() as usize }
                    } else {
                        &&& final(self).chain@ == old(self).chain@
                        &&& final(self).mempool@ == old(self).mempool@
                        &&& r == BlockOutcome::Invalid
                    }
                } else {
                    &&& final(self).chain@ == old(self).chain@
                    &&& final(self).mempool@ == old(self).mempool@
                    &&& if blk.index > last.index + 1 {
                        r == BlockOutcome::Syncing { chain_length: old(self).chain@.len() as usize }
                    } else {
                        r == BlockOutcome::Ignored { chain_length: old(self).chain@.len() as usize }
                    }
                }
            }),
            chain_valid(old(self).chain@) ==> chain_valid(final(self).chain@),
            r is Appended ==> forall|i: int, k: int|
                0 <= i < final(self).mempool@.len() && 0 <= k < blk.transactions@.len()
                    && blk.transactions@[k].tx_type@ == "TRANSFER"@ ==> #[trigger] final(self).mempool@[i].id@
                    != #[trigger] blk.transactions@[k].id@,
    {
        let n = self.chain.len();
        let last = &self.chain[n - 1];
        let next_is_blk = last.index < u64::MAX && blk.index == last.index + 1;
        if next_is_blk && str_eq(blk.previous_hash.as_str(), last.hash.as_str()) {
            match validate_block(&blk, Some(last), self.chain.as_slice()) {
                Ok(()) => {},
                Err(_) => {
                    return BlockOutcome::Invalid;
                },
            }
            let ghost old_pool = self.mempool@;
            let mut kept: Vec<Transaction> = Vec::new();
            let mut i: usize = 0;
            while i < self.mempool.len()
                invariant
                    0 <= i <= self.mempool@.len(),
                    self.mempool@ == old_pool,
                    kept@ == mempool_after(old_pool.take(i as int), blk),
                decreases self.mempool@.len() - i,
            {
                proof {
                    reveal_with_fuel(Seq::<_>::filter, 1);
                    assert(old_pool.take(i + 1).drop_last() =~= old_pool.take(i as int));
                }
                if !is_mined_transfer(&blk, self.mempool[i].id.as_str()) {
                    kept.push(self.mempool[i].clone());
                }
                i = i + 1;
            }
            assert(old_pool.take(old_pool.len() as int) =~= old_pool);
            proof {
                lemma_mempool_after_drops_mined(old_pool, blk);
            }
            self.mempool = kept;
            let ghost old_chain = self.chain@;
            proof {
                if chain_valid(old_chain) {
                    lemma_append_valid(old_chain, blk);
                }
            }
            self.chain.push(blk);
            assert(self.chain@.drop_last() =~= old_chain);
            let len = self.chain.len();
            BlockOutcome::Appended { chain_length: len }
        } else if last.index < u64::MAX && blk.index > last.index + 1 {
            BlockOutcome::Syncing { chain_length: n }
        } else {
            BlockOutcome::Ignored { chain_length: n }
        }
    }
}


/// A coinbase transaction paying the block reward to `miner` at `ts`.
pub open spec fn is_coinbase_for(tx: Transaction, miner: Seq<char>, ts: u64) -> bool {
    &&& tx.tx_type@ == "COINBASE"@
    &&& tx.from@ == "SYSTEM"@
    &&& tx.to@ == miner
    &&& tx.amount == BLOCK_REWARD
    &&& tx.timestamp == ts
    &&& tx.public_key@ == ZEROS@
    &&& tx.signature@ == ZEROS@
}

/// A block mined on top of `prev`: the next index, linked to `prev`, a
/// coinbase for `miner` followed by the pending transactions, and the least
/// nonce meeting the difficulty target with its hash.
pub open spec fn mined_block(prev: Block, pending: Seq<Transaction>, miner: Seq<char>, b: Block) -> bool {
    &&& b.index == prev.index + 1
    &&& b.previous_hash@ == prev.hash@
    &&& b.transactions@.len() == pending.len() + 1
    &&& b.transactions@.drop_first() == pending
    &&& is_coinbase_for(b.transactions@[0], miner, b.timestamp)
    &&& crate::mining::least_nonce(b.index, b.timestamp, b.previous_hash@, b.transactions@, b.nonce)
    &&& b.hash@ == crate::crypto::block_hash(b.index, b.timestamp, b.previous_hash@, b.nonce, b.transactions@)
}

/// Whether no 64-bit nonce gives a block on top of `prev`, created at `ts`,
/// holding a coinbase of id `coinbase_id` followed by `pending`, a hash
/// meeting the difficulty target.  The block hash reads the transactions
/// only through their ids, so this speaks of every list with those ids.
pub open spec fn no_nonce_for(prev: Block, pending: Seq<Transaction>, ts: u64, coinbase_id: Seq<char>) -> bool {
    forall|txs: Seq<Transaction>, m: u64|
        crate::crypto::tx_ids(txs) == seq![coinbase_id] + crate::crypto::tx_ids(pending) ==> !crate::mining::meets_difficulty(
            #[trigger] crate::crypto::block_hash((prev.index + 1) as u64, ts, prev.hash@, m, txs),
        )
}

/// Calls `uuid::Uuid::new_v4` and renders it.  Nothing is claimed of the
/// value (it is random).
#[verifier::external_body]
pub(crate) fn new_uuid() -> String {
    uuid::Uuid::new_v4().to_string()
}

impl AppState {
    /// Mines a block at `timestamp` with a coinbase of id `coinbase_id` for
    /// this node's wallet, taking every pending transaction, and appends it
    /// to the chain; `None`, with nothing changed, exactly when no 64-bit
    /// nonce meets the difficulty target.
    pub fn mine_block_at(&mut self, timestamp: u64, coinbase_id: String) -> (r: Option<Block>)
        requires
            old(self).chain@.len() > 0,
            old(self).chain@.last().index < u64::MAX,
        ensures
            final(self).peers@ == old(self).peers@,
            final(self).wallet == old(self).wallet,
            final(self).node_url == old(self).node_url,
            match r {
                Some(b) => {
                    &&& mined_block(old(self).chain@.last(), old(self).mempool@, old(self).wallet.address@, b)
                    &&& b.timestamp == timestamp
                    &&& b.transactions@[0].id@ == coinbase_id@
                    &&& final(self).chain@.len() == old(self).chain@.len() + 1
                    &&& final(self).chain@.drop_last() == old(self).chain@
                    &&& final(self).chain@.last().same(b)
                    &&& final(self).mempool@.len() == 0
                },
                None => {
                    &&& final(self).chain@ == old(self).chain@
                    &&& final(self).mempool@ == old(self).mempool@
                    &&& no_nonce_for(old(self).chain@.last(), old(self).mempool@, timestamp, coinbase_id@)
                },
            },
    {
        let ghost cid = coinbase_id@;
        let n = self.chain.len();
        let index = self.chain[n - 1].index + 1;
        let prev_hash = self.chain[n - 1].hash.clone();
        let coinbase = Transaction {
            id: coinbase_id,
            tx_type: owned("COINBASE"),
            from: owned("SYSTEM"),
            to: self.wallet.address.clone(),
            amount: BLOCK_REWARD,
            timestamp,
            public_key: owned(ZEROS),
            signature: owned(ZEROS),
        };
        let mut txs = vec![coinbase];
        let mut i: usize = 0;
        while i < self.mempool.len()
            invariant
                0 <= i <= self.mempool@.len(),
                txs@.len() == i + 1,
                txs@[0] == coinbase,
                txs@.drop_first() == self.mempool@.take(i as int),
            decreases self.mempool@.len() - i,
        {
            txs.push(self.mempool[i].clone());
            assert(txs@.drop_first() =~= self.mempool@.take(i + 1));
            i = i + 1;
        }
        assert(self.mempool@.take(self.mempool@.len() as int) =~= self.mempool@);
        match find_nonce(index, timestamp, prev_hash.as_str(), txs.as_slice()) {
            Some((nonce, hash)) => {
                let block = Block {
                    index,
                    timestamp,
                    transactions: txs,
                    previous_hash: prev_hash,
                    hash,
                    nonce,
                };
                let ghost old_chain = self.chain@;
                self.chain.push(block.clone());
                assert(self.chain@.drop_last() =~= old_chain);
                self.mempool = Vec::new();
                Some(block)
            },
            None => {
                proof {
                    let prev = self.chain@.last();
                    assert(crate::crypto::tx_ids(txs@) =~= seq![cid] + crate::crypto::tx_ids(self.mempool@)) by {
                        assert(txs@ =~= seq![txs@[0]] + txs@.drop_first());
                    }
                    assert forall|t: Seq<Transaction>, m: u64|
                        crate::crypto::tx_ids(t) == seq![cid] + crate::crypto::tx_ids(self.mempool@) implies !crate::mining::meets_difficulty(
                            #[trigger] crate::crypto::block_hash((prev.index + 1) as u64, timestamp, prev.hash@, m, t),
                        ) by {
                        assert(crate::crypto::block_hash(index, timestamp, prev_hash@, m, txs@) == crate::crypto::block_hash(
                            (prev.index + 1) as u64,
                            timestamp,
                            prev.hash@,
                            m,
                            t,
                        ));
                    }
                }
                None
            },
        }
    }

    /// Mines a block now, with a fresh random coinbase id, and appends it
    /// (see `mine_block_at`); `None` only when, for the time and id it
    /// drew, no 64-bit nonce meets the difficulty target.
    pub fn mine_block(&mut self) -> (r: Option<Block>)
        requires
            old(self).chain@.len() > 0,
            old(self).chain@.last().index < u64::MAX,
        ensures
            final(self).peers@ == old(self).peers@,
            final(self).wallet == old(self).wallet,
            final(self).node_url == old(self).node_url,
            match r {
                Some(b) => {
                    &&& mined_block(old(self).chain@.last(), old(self).mempool@, old(self).wallet.address@, b)
                    &&& final(self).chain@.len() == old(self).chain@.len() + 1
                    &&& final(self).chain@.drop_last() == old(self).chain@
                    &&& final(self).chain@.last().same(b)
                    &&& final(self).mempool@.len() == 0
                },
                None => {
                    &&& final(self).chain@ == old(self).chain@
                    &&& final(self).mempool@ == old(self).mempool@
                    &&& exists|ts: u64, id: Seq<char>| #[trigger] no_nonce_for(old(self).chain@.last(), old(self).mempool@, ts, id)
                },
            },
    {
        let ts = now_ms();
        let id = new_uuid();
        self.mine_block_at(ts, id)
    }
}


/// A block this node mines on a valid chain, with a later timestamp and
/// pending transfers that each pass `validate_transfer` against the chain,
/// passes `validate_block`, and the chain it ends stays valid.
pub proof fn lemma_mined_block_valid(chain: Seq<Block>, pending: Seq<Transaction>, miner: Seq<char>, b: Block)
    requires
        chain_valid(chain),
        mined_block(chain.last(), pending, miner, b),
        b.timestamp > chain.last().timestamp,
        forall|i: int| 0 <= i < pending.len() ==> #[trigger] transfer_check(pending[i], chain) is Ok,
    ensures
        block_check(b, Some(chain.last()), chain) is Ok,
        chain_valid(chain.push(b)),
{
    let txs = b.transactions@;
    assert(txs =~= seq![txs[0]] + pending);
    lemma_zeros_zero_filled();
    assert(coinbase_check(txs[0], b.timestamp) is Ok);
    reveal_strlit("TRANSFER");
    reveal_strlit("COINBASE");
    assert forall|i: int| 0 <= i < pending.len() implies #[trigger] pending[i].tx_type@ != "COINBASE"@ by {
        assert(transfer_check(pending[i], chain) is Ok);
        assert(pending[i].tx_type@ == "TRANSFER"@);
        assert("TRANSFER"@[0] != "COINBASE"@[0]);
    }
    lemma_no_coinbase(pending);
    lemma_coinbase_count_cons(txs[0], pending);
    assert(coinbase_count(txs) == 1);
    lemma_transfers_all_ok(pending, chain);
    crate::node::lemma_append_valid(chain, b);
}


/// Adds `u` to a list of distinct peers unless it is already there.
pub open spec fn insert_view(ps: Seq<Seq<char>>, u: Seq<char>) -> Seq<Seq<char>> {
    if ps.contains(u) {
        ps
    } else {
        ps.push(u)
    }
}

/// Adds each of `us`, in order, to a list of distinct peers.
pub open spec fn insert_all(ps: Seq<Seq<char>>, us: Seq<Seq<char>>) -> Seq<Seq<char>>
    decreases us.len(),
{
    if us.len() == 0 {
        ps
    } else {
        insert_view(insert_all(ps, us.drop_last()), us.last())
    }
}

/// Adds a peer to a list of distinct peers, as a set insertion does.
pub fn insert_peer(peers: &mut Vec<String>, url: String)
    ensures
        views(final(peers)@) == insert_view(views(old(peers)@), url@),
        distinct_views(old(peers)@) ==> distinct_views(final(peers)@),
{
    let mut i: usize = 0;
    while i < peers.len()
        invariant
            0 <= i <= peers@.len(),
            peers@ == old(peers)@,
            forall|k: int| 0 <= k < i ==> peers@[k]@ != url@,
        decreases peers@.len() - i,
    {
        if str_eq(peers[i].as_str(), url.as_str()) {
            assert(views(peers@)[i as int] == url@);
            return;
        }
        i = i + 1;
    }
    assert(!views(peers@).contains(url@)) by {
        if views(peers@).contains(url@) {
            let k = choose|k: int| 0 <= k < views(peers@).len() && views(peers@)[k] == url@;
            assert(peers@[k]@ == url@);
        }
    }
    let ghost before = peers@;
    peers.push(url);
    assert(views(peers@) =~= views(before).push(url@));
}

/// The URLs taken from a seed's peer list: trailing slashes dropped, and
/// this node's own URL left out, in order.
pub open spec fn discovered_from(urls: Seq<String>, node: Seq<char>) -> Seq<Seq<char>>
    decreases urls.len(),
{
    if urls.len() == 0 {
        Seq::empty()
    } else {
        let d = discovered_from(urls.drop_last(), node);
        let u = trim_end_slashes(urls.last()@);
        if u != node {
            d.push(u)
        } else {
            d
        }
    }
}

impl AppState {
    /// Registers a peer announced by URL (trailing slashes dropped), unless
    /// it is empty or this node's own URL; returns the URL as registered.
    pub fn register_peer(&mut self, url: &str) -> (registered: String)
        ensures
            registered@ == trim_end_slashes(url@),
            final(self).chain@ == old(self).chain@,
            final(self).mempool@ == old(self).mempool@,
            final(self).wallet == old(self).wallet,
            final(self).node_url == old(self).node_url,
            views(final(self).peers@) == if registered@.len() > 0 && registered@ != old(self).node_url@ {
                insert_view(views(old(self).peers@), registered@)
            } else {
                views(old(self).peers@)
            },
            distinct_views(old(self).peers@) ==> distinct_views(final(self).peers@),
    {
        let u = owned(trim_end_slash(url));
        if !u.as_str().is_empty() && !str_eq(u.as_str(), self.node_url.as_str()) {
            insert_peer(&mut self.peers, u.clone());
        }
        u
    }

    /// Takes the peer list a seed answered with: each URL without trailing
    /// slashes and other than this node's own is added, then the seed
    /// itself; returns the URLs added from the list, in order.
    pub fn add_discovered_peers(&mut self, urls: &[String], seed: &str) -> (discovered: Vec<String>)
        ensures
            views(discovered@) == discovered_from(urls@, old(self).node_url@),
            views(final(self).peers@) == insert_view(
                insert_all(views(old(self).peers@), views(discovered@)),
                seed@,
            ),
            final(self).chain@ == old(self).chain@,
            final(self).mempool@ == old(self).mempool@,
            final(self).wallet == old(self).wallet,
            final(self).node_url == old(self).node_url,
            distinct_views(old(self).peers@) ==> distinct_views(final(self).peers@),
    {
        let ghost p0 = views(self.peers@);
        let ghost node = self.node_url@;
        let mut discovered: Vec<String> = Vec::new();
        let mut i: usize = 0;
        while i < urls.len()
            invariant
                0 <= i <= urls@.len(),
                node == self.node_url@,
                views(discovered@) == discovered_from(urls@.take(i as int), node),
                views(self.peers@) == insert_all(p0, views(discovered@)),
                distinct_views(old(self).peers@) ==> distinct_views(self.peers@),
                self.chain@ == old(self).chain@,
                self.mempool@ == old(self).mempool@,
                self.wallet == old(self).wallet,
                self.node_url == old(self).node_url,
            decreases urls@.len() - i,
        {
            assert(urls@.take(i + 1).drop_last() =~= urls@.take(i as int));
            let u = owned(trim_end_slash(urls[i].as_str()));
            if !str_eq(u.as_str(), self.node_url.as_str()) {
                let ghost before = discovered@;
                insert_peer(&mut self.peers, u.clone());
                discovered.push(u);
                assert(views(discovered@) =~= views(before).push(u@));
                assert(views(discovered@).drop_last() =~= views(before));
            }
            i = i + 1;
        }
        assert(urls@.take(urls@.len() as int) =~= urls@);
        insert_peer(&mut self.peers, owned(seed));
        discovered
    }

    /// Replaces the chain with `candidate` when it is longer and valid, as
    /// bootstrapping from a seed does; says whether it did.
    pub fn adopt_longer_valid_chain(&mut self, candidate: Vec<Block>) -> (adopted: bool)
        ensures
            adopted == (candidate@.len() > old(self).chain@.len() && chain_valid(candidate@)),
            final(self).chain@ == if adopted { candidate@ } else { old(self).chain@ },
            final(self).mempool@ == old(self).mempool@,
            final(self).peers@ == old(self).peers@,
            final(self).wallet == old(self).wallet,
            final(self).node_url == old(self).node_url,
            chain_valid(old(self).chain@) ==> chain_valid(final(self).chain@),
    {
        if candidate.len() > self.chain.len() && validate_full_chain(candidate.as_slice()) {
            self.chain = candidate;
            true
        } else {
            false
        }
    }

    /// Replaces the chain with `candidate` when it is longer, as resolving
    /// conflicts does with the chain it picked; says whether it did.
    pub fn adopt_longer_chain(&mut self, candidate: Vec<Block>) -> (adopted: bool)
        ensures
            adopted == (candidate@.len() > old(self).chain@.len()),
            final(self).chain@ == if adopted { candidate@ } else { old(self).chain@ },
            final(self).mempool@ == old(self).mempool@,
            final(self).peers@ == old(self).peers@,
            final(self).wallet == old(self).wallet,
            final(self).node_url == old(self).node_url,
    {
        if candidate.len() > self.chain.len() {
            self.chain = candidate;
            true
        } else {
            false
        }
    }
}

/// Picks among chains offered by peers the one to adopt: scanning in order,
/// each valid chain longer than the best so far (starting from the current
/// length) becomes the best.  So the result is the first valid chain of the
/// greatest length, if that length exceeds `current_len`.
pub fn longest_valid_chain(current_len: usize, candidates: &[Vec<Block>]) -> (r: Option<usize>)
    ensures
        match r {
            Some(k) => {
                &&& k < candidates@.len()
                &&& chain_valid(candidates@[k as int]@)
                &&& candidates@[k as int]@.len() > current_len
                &&& forall|j: int| 0 <= j < candidates@.len() && chain_valid(#[trigger] candidates@[j]@)
                    ==> candidates@[j]@.len() <= candidates@[k as int]@.len()
                &&& forall|j: int| 0 <= j < k && chain_valid(#[trigger] candidates@[j]@)
                    ==> candidates@[j]@.len() < candidates@[k as int]@.len()
            },
            None => forall|j: int| 0 <= j < candidates@.len() && chain_valid(#[trigger] candidates@[j]@)
                ==> candidates@[j]@.len() <= current_len,
        },
{
    let mut best_len = current_len;
    let mut best: Option<usize> = None;
    let mut i: usize = 0;
    while i < candidates.len()
        invariant
            0 <= i <= candidates@.len(),
            best_len >= current_len,
            match best {
                Some(k) => {
                    &&& k < i
                    &&& chain_valid(candidates@[k as int]@)
                    &&& candidates@[k as int]@.len() == best_len
                    &&& best_len > current_len
                    &&& forall|j: int| 0 <= j < k && chain_valid(#[trigger] candidates@[j]@)
                        ==> candidates@[j]@.len() < best_len
                },
                None => best_len == current_len,
            },
            forall|j: int| 0 <= j < i && chain_valid(#[trigger] candidates@[j]@)
                ==> candidates@[j]@.len() <= best_len,
        decreases candidates@.len() - i,
    {
        if candidates[i].len() > best_len && validate_full_chain(candidates[i].as_slice()) {
            best_len = candidates[i].len();
            best = Some(i);
        }
        i = i + 1;
    }
    best
}

/// The URL of a seed as given: surrounding whitespace and trailing slashes
/// dropped.
pub fn normalize_seed(seed: &str) -> (r: &str)
    ensures
        r@ == trim_end_slashes(trim_ws(seed@)),
{
    trim_end_slash(trim(seed))
}

} // verus!
