//! Mempools: the pool of pending transfers filed under their ids, and (in
//! `types`) the pool of pending UTXO transactions.

pub mod error;
pub mod ports;
pub mod types;

pub use error::MempoolError;

use crate::consensus_engine::transaction::{transaction_id, Transaction};
use crate::text::str_eq;
use vstd::prelude::*;

verus! {

/// How many transactions a pool made by `new` holds at most.
pub const MAX_MEMPOOL_SIZE: usize = 100;

/// The rule a transaction breaks, first in this order: empty sender, empty
/// recipient, sender equal to recipient, zero amount, empty signature.
pub open spec fn problem(t: Transaction) -> Option<Seq<char>> {
    if t.from@.len() == 0 {
        Some("'from' vacío"@)
    } else if t.to@.len() == 0 {
        Some("'to' vacío"@)
    } else if t.from@ == t.to@ {
        Some("'from' y 'to' iguales"@)
    } else if t.amount == 0 {
        Some("monto cero"@)
    } else if t.sig@.len() == 0 {
        Some("firma vacía"@)
    } else {
        None
    }
}

/// The ids of a list of transactions.
pub open spec fn ids_of(ts: Seq<Transaction>) -> Set<Seq<char>> {
    Set::new(|id: Seq<char>| exists|i: int| 0 <= i < ts.len() && #[trigger] transaction_id(ts[i]) == id)
}

/// The transactions of `txs` whose id is not in `ids`, in order.
pub open spec fn without_ids(txs: Seq<Transaction>, ids: Set<Seq<char>>) -> Seq<Transaction>
    decreases txs.len(),
{
    if txs.len() == 0 {
        Seq::empty()
    } else {
        let rest = without_ids(txs.drop_last(), ids);
        if ids.contains(transaction_id(txs.last())) {
            rest
        } else {
            rest.push(txs.last())
        }
    }
}

/// The transactions of `txs` that break no rule, in order.
pub open spec fn valid_only(txs: Seq<Transaction>) -> Seq<Transaction>
    decreases txs.len(),
{
    if txs.len() == 0 {
        Seq::empty()
    } else {
        let rest = valid_only(txs.drop_last());
        if problem(txs.last()) is None {
            rest.push(txs.last())
        } else {
            rest
        }
    }
}

/// Whether no two of `txs` have the same id.
pub open spec fn ids_distinct(txs: Seq<Transaction>) -> bool {
    forall|i: int, j: int| 0 <= i < j < txs.len() ==> transaction_id(#[trigger] txs[i]) != transaction_id(#[trigger] txs[j])
}

/// Pending transfers, each filed under its id, at most `max_size` of them.
pub struct Mempool {
    entries: Vec<(String, Transaction)>,
    max_size: usize,
}

/// Whether each entry is filed under its transaction's id, and no id
/// occurs twice.
pub open spec fn entries_ok(es: Seq<(String, Transaction)>) -> bool {
    &&& forall|i: int| 0 <= i < es.len() ==> (#[trigger] es[i]).0@ == transaction_id(es[i].1)
    &&& forall|i: int, j: int| 0 <= i < j < es.len() ==> (#[trigger] es[i]).0@ != (#[trigger] es[j]).0@
}

/// The transactions of a list of entries.
pub open spec fn entry_txs(es: Seq<(String, Transaction)>) -> Seq<Transaction> {
    es.map_values(|e: (String, Transaction)| e.1)
}

/// Whether `kept` is made of entries of `es` below `upto`, in their order:
/// `src` gives where each came from.
pub open spec fn drawn_from(kept: Seq<(String, Transaction)>, es: Seq<(String, Transaction)>, src: Seq<int>, upto: int) -> bool {
    &&& src.len() == kept.len()
    &&& forall|k: int| 0 <= k < kept.len() ==> 0 <= #[trigger] src[k] < upto && kept[k] == es[src[k]]
    &&& forall|k: int, l: int| 0 <= k < l < kept.len() ==> #[trigger] src[k] < #[trigger] src[l]
}

proof fn lemma_entries_ids(es: Seq<(String, Transaction)>)
    requires
        entries_ok(es),
    ensures
        ids_distinct(entry_txs(es)),
{
    assert forall|i: int, j: int| 0 <= i < j < entry_txs(es).len() implies transaction_id(
        #[trigger] entry_txs(es)[i],
    ) != transaction_id(#[trigger] entry_txs(es)[j]) by {
        assert(es[i].0@ != es[j].0@);
    }
}

proof fn lemma_drawn_ok(kept: Seq<(String, Transaction)>, es: Seq<(String, Transaction)>, src: Seq<int>, upto: int)
    requires
        entries_ok(es),
        upto <= es.len(),
        drawn_from(kept, es, src, upto),
    ensures
        entries_ok(kept),
{
    assert forall|i: int, j: int| 0 <= i < j < kept.len() implies (#[trigger] kept[i]).0@ != (#[trigger] kept[j]).0@ by {
        assert(src[i] < src[j]);
        assert(es[src[i]].0@ != es[src[j]].0@);
    }
    assert forall|i: int| 0 <= i < kept.len() implies (#[trigger] kept[i]).0@ == transaction_id(kept[i].1) by {
        assert(kept[i] == es[src[i]]);
    }
}

impl Mempool {
    #[verifier::type_invariant]
    spec fn inv(self) -> bool {
        entries_ok(self.entries@)
    }

    /// The pending transactions, in the order they came.
    pub closed spec fn txs(&self) -> Seq<Transaction> {
        entry_txs(self.entries@)
    }

    /// How many transactions the pool holds at most.
    pub closed spec fn capacity(&self) -> usize {
        self.max_size
    }

    /// An empty pool for `MAX_MEMPOOL_SIZE` transactions.
    pub fn new() -> (m: Mempool)
        ensures
            m.txs() == Seq::<Transaction>::empty(),
            m.capacity() == MAX_MEMPOOL_SIZE,
    {
        Self::with_max_size(MAX_MEMPOOL_SIZE)
    }

    /// An empty pool for `max_size` transactions.
    pub fn with_max_size(max_size: usize) -> (m: Mempool)
        ensures
            m.txs() == Seq::<Transaction>::empty(),
            m.capacity() == max_size,
            ids_distinct(m.txs()),
    {
        let m = Mempool { entries: Vec::new(), max_size };
        assert(m.txs() =~= Seq::<Transaction>::empty());
        m
    }

    /// Checks the rules of a transaction.
    pub fn validate(tx: &Transaction) -> (r: Result<(), MempoolError>)
        ensures
            match problem(*tx) {
                None => r is Ok,
                Some(reason) => r matches Err(MempoolError::InvalidTransaction(s)) && s@ == reason,
            },
    {
        if tx.from.as_str().is_empty() {
            return Err(MempoolError::InvalidTransaction(crate::text::owned("'from' vacío")));
        }
        if tx.to.as_str().is_empty() {
            return Err(MempoolError::InvalidTransaction(crate::text::owned("'to' vacío")));
        }
        if tx.from == tx.to {
            return Err(MempoolError::InvalidTransaction(crate::text::owned("'from' y 'to' iguales")));
        }
        if tx.amount == 0 {
            return Err(MempoolError::InvalidTransaction(crate::text::owned("monto cero")));
        }
        if tx.sig.as_str().is_empty() {
            return Err(MempoolError::InvalidTransaction(crate::text::owned("firma vacía")));
        }
        Ok(())
    }

    fn find_id(&self, id: &str) -> (r: Option<usize>)
        ensures
            match r {
                Some(i) => i < self.entries@.len() && self.entries@[i as int].0@ == id@,
                None => forall|i: int| 0 <= i < self.entries@.len() ==> #[trigger] self.entries@[i].0@ != id@,
            },
    {
        let mut i: usize = 0;
        while i < self.entries.len()
            invariant
                0 <= i <= self.entries@.len(),
                forall|j: int| 0 <= j < i ==> #[trigger] self.entries@[j].0@ != id@,
            decreases self.entries@.len() - i,
        {
            if str_eq(self.entries[i].0.as_str(), id) {
                return Some(i);
            }
            i = i + 1;
        }
        None
    }

    /// Adds `tx` under its id, which it returns.  A transaction that breaks
    /// a rule is refused with that rule; then a full pool refuses; then a
    /// pool with a pending transaction of the same id refuses.  A refused
    /// transaction leaves the pool as it was.
    pub fn add_transaction(&mut self, tx: Transaction) -> (r: Result<String, MempoolError>)
        ensures
            final(self).capacity() == old(self).capacity(),
            match problem(tx) {
                Some(reason) => r matches Err(MempoolError::InvalidTransaction(s)) && s@ == reason,
                None => if old(self).txs().len() >= old(self).capacity() {
                    r matches Err(MempoolError::Full)
                } else if ids_of(old(self).txs()).contains(transaction_id(tx)) {
                    r matches Err(MempoolError::Duplicate)
                } else {
                    r matches Ok(id) && id@ == transaction_id(tx)
                },
            },
            r is Ok ==> final(self).txs() == old(self).txs().push(tx),
            r is Err ==> final(self).txs() == old(self).txs(),
            ids_distinct(final(self).txs()),
    {
        proof {
            use_type_invariant(&*self);
        }
        proof {
            lemma_entries_ids(self.entries@);
        }
        match Self::validate(&tx) {
            Err(e) => return Err(e),
            Ok(()) => {},
        }
        if self.entries.len() >= self.max_size {
            return Err(MempoolError::Full);
        }
        let tx_id = tx.tx_id();
        match self.find_id(tx_id.as_str()) {
            Some(i) => {
                assert(transaction_id(self.txs()[i as int]) == transaction_id(tx));
                return Err(MempoolError::Duplicate);
            },
            None => {},
        }
        assert(!ids_of(self.txs()).contains(transaction_id(tx))) by {
            if ids_of(self.txs()).contains(transaction_id(tx)) {
                let i = choose|i: int| 0 <= i < self.txs().len() && #[trigger] transaction_id(self.txs()[i]) == transaction_id(tx);
                assert(self.entries@[i].0@ == transaction_id(self.entries@[i].1));
            }
        }
        let ghost old_entries = self.entries@;
        let id = tx_id.clone();
        let mut entries: Vec<(String, Transaction)> = Vec::new();
        std::mem::swap(&mut entries, &mut self.entries);
        entries.push((tx_id, tx));
        assert(forall|i: int| 0 <= i < old_entries.len() ==> (#[trigger] old_entries[i]).0@ != id@);
        assert(entries_ok(entries@));
        self.entries = entries;
        assert(self.txs() =~= entry_txs(old_entries).push(tx));
        proof {
            lemma_entries_ids(self.entries@);
        }
        Ok(id)
    }

    /// Up to `limit` of the pending transactions, oldest first; the pool is
    /// left as it was.
    pub fn get_transactions_for_block(&self, limit: usize) -> (r: Vec<Transaction>)
        ensures
            r@ == self.txs().take(if limit < self.txs().len() { limit as int } else { self.txs().len() as int }),
    {
        let count = if limit < self.entries.len() { limit } else { self.entries.len() };
        let mut r: Vec<Transaction> = Vec::new();
        let mut i: usize = 0;
        while i < count
            invariant
                0 <= i <= count,
                count <= self.entries@.len(),
                r@ == self.txs().take(i as int),
            decreases count - i,
        {
            r.push(self.entries[i].1.clone());
            assert(r@ =~= self.txs().take(i + 1));
            i = i + 1;
        }
        r
    }

    /// Drops the pending transactions whose id is the id of one of
    /// `transactions`.
    pub fn remove_transactions(&mut self, transactions: &[Transaction])
        ensures
            final(self).capacity() == old(self).capacity(),
            final(self).txs() == without_ids(old(self).txs(), ids_of(transactions@)),
            ids_distinct(final(self).txs()),
    {
        proof {
            use_type_invariant(&*self);
        }
        let mut ids: Vec<String> = Vec::new();
        let mut i: usize = 0;
        while i < transactions.len()
            invariant
                0 <= i <= transactions@.len(),
                ids@.len() == i,
                forall|k: int| 0 <= k < i ==> (#[trigger] ids@[k])@ == transaction_id(transactions@[k]),
            decreases transactions@.len() - i,
        {
            ids.push(transactions[i].tx_id());
            i = i + 1;
        }
        let ghost gone = ids_of(transactions@);
        let ghost es = self.entries@;
        let mut kept: Vec<(String, Transaction)> = Vec::new();
        let ghost mut src: Seq<int> = Seq::empty();
        let mut j: usize = 0;
        while j < self.entries.len()
            invariant
                0 <= j <= self.entries@.len(),
                es == self.entries@,
                entries_ok(es),
                ids@.len() == transactions@.len(),
                forall|k: int| 0 <= k < ids@.len() ==> (#[trigger] ids@[k])@ == transaction_id(transactions@[k]),
                gone == ids_of(transactions@),
                drawn_from(kept@, es, src, j as int),
                entry_txs(kept@) == without_ids(entry_txs(es).take(j as int), gone),
            decreases self.entries@.len() - j,
        {
            let mut listed = false;
            let mut k: usize = 0;
            while k < ids.len()
                invariant
                    0 <= k <= ids@.len(),
                    j < es.len(),
                    es == self.entries@,
                    !listed ==> forall|m: int| 0 <= m < k ==> (#[trigger] ids@[m])@ != es[j as int].0@,
                    listed ==> exists|m: int| 0 <= m < ids@.len() && (#[trigger] ids@[m])@ == es[j as int].0@,
                decreases ids@.len() - k,
            {
                if !listed && str_eq(ids[k].as_str(), self.entries[j].0.as_str()) {
                    listed = true;
                }
                k = k + 1;
            }
            let ghost t = es[j as int].1;
            assert(entry_txs(es).take(j + 1).drop_last() =~= entry_txs(es).take(j as int));
            assert(entry_txs(es).take(j + 1).last() == t);
            assert(es[j as int].0@ == transaction_id(t));
            if listed {
                proof {
                    let m = choose|m: int| 0 <= m < ids@.len() && (#[trigger] ids@[m])@ == es[j as int].0@;
                    assert(transaction_id(transactions@[m]) == transaction_id(t));
                }
            } else {
                proof {
                    if gone.contains(transaction_id(t)) {
                        let m = choose|m: int| 0 <= m < transactions@.len() && #[trigger] transaction_id(transactions@[m]) == transaction_id(t);
                        assert(ids@[m]@ == es[j as int].0@);
                    }
                }
                let e = (self.entries[j].0.clone(), self.entries[j].1.clone());
                assert(e == es[j as int]);
                let ghost before = kept@;
                kept.push(e);
                proof {
                    src = src.push(j as int);
                    assert(entry_txs(kept@) =~= entry_txs(before).push(t));
                }
            }
            j = j + 1;
        }
        assert(entry_txs(es).take(es.len() as int) =~= entry_txs(es));
        proof {
            lemma_drawn_ok(kept@, es, src, es.len() as int);
            lemma_entries_ids(kept@);
        }
        self.entries = kept;
    }

    /// How many transactions are pending.
    pub fn get_size(&self) -> (n: usize)
        ensures
            n == self.txs().len(),
    {
        self.entries.len()
    }

    /// Drops the pending transactions that break a rule.
    pub fn clear_invalid_transactions(&mut self)
        ensures
            final(self).capacity() == old(self).capacity(),
            final(self).txs() == valid_only(old(self).txs()),
            ids_distinct(final(self).txs()),
    {
        proof {
            use_type_invariant(&*self);
        }
        let ghost es = self.entries@;
        let mut kept: Vec<(String, Transaction)> = Vec::new();
        let ghost mut src: Seq<int> = Seq::empty();
        let mut j: usize = 0;
        while j < self.entries.len()
            invariant
                0 <= j <= self.entries@.len(),
                es == self.entries@,
                entries_ok(es),
                drawn_from(kept@, es, src, j as int),
                entry_txs(kept@) == valid_only(entry_txs(es).take(j as int)),
            decreases self.entries@.len() - j,
        {
            let ghost t = es[j as int].1;
            assert(entry_txs(es).take(j + 1).drop_last() =~= entry_txs(es).take(j as int));
            assert(entry_txs(es).take(j + 1).last() == t);
            if Self::validate(&self.entries[j].1).is_ok() {
                let e = (self.entries[j].0.clone(), self.entries[j].1.clone());
                assert(e == es[j as int]);
                let ghost before = kept@;
                kept.push(e);
                proof {
                    src = src.push(j as int);
                    assert(entry_txs(kept@) =~= entry_txs(before).push(t));
                }
            }
            j = j + 1;
        }
        assert(entry_txs(es).take(es.len() as int) =~= entry_txs(es));
        proof {
            lemma_drawn_ok(kept@, es, src, es.len() as int);
            lemma_entries_ids(kept@);
        }
        self.entries = kept;
    }
}

impl Default for Mempool {
    fn default() -> (m: Mempool)
        ensures
            m.txs() == Seq::<Transaction>::empty(),
            m.capacity() == MAX_MEMPOOL_SIZE,
    {
        Self::new()
    }
}

/// What a node needs of a transfer pool.
pub trait MempoolTrait {
    /// The pending transactions.
    fn get_pending_transactions(&self) -> Vec<Transaction>;

    /// The pending transactions.
    fn get_transactions(&self) -> Vec<Transaction>;

    /// Drops the given transactions from the pool.
    fn remove_transactions(&mut self, tx: &Vec<Transaction>);

    /// Offers a transaction to the pool; a refusal is dropped.
    fn add_transaction_to_mempool(&mut self, tx: &Transaction);
}

/// Whether `add_transaction` takes `tx` into a pool holding `txs` with room
/// for `capacity` transactions.
pub open spec fn admits(txs: Seq<Transaction>, capacity: usize, tx: Transaction) -> bool {
    problem(tx) is None && txs.len() < capacity && !ids_of(txs).contains(transaction_id(tx))
}

impl Mempool {
    fn all_transactions(&self) -> (r: Vec<Transaction>)
        ensures
            r@ == self.txs(),
    {
        let r = self.get_transactions_for_block(self.get_size());
        assert(self.txs().take(self.txs().len() as int) =~= self.txs());
        r
    }

    fn offer(&mut self, tx: &Transaction)
        ensures
            final(self).capacity() == old(self).capacity(),
            final(self).txs() == if admits(old(self).txs(), old(self).capacity(), *tx) {
                old(self).txs().push(*tx)
            } else {
                old(self).txs()
            },
    {
        let _ = self.add_transaction(tx.clone());
    }
}

impl MempoolTrait for Mempool {
    fn get_pending_transactions(&self) -> (r: Vec<Transaction>)
        ensures
            r@ == self.txs(),
    {
        self.all_transactions()
    }

    fn get_transactions(&self) -> (r: Vec<Transaction>)
        ensures
            r@ == self.txs(),
    {
        self.all_transactions()
    }

    fn remove_transactions(&mut self, tx: &Vec<Transaction>)
        ensures
            final(self).capacity() == old(self).capacity(),
            final(self).txs() == without_ids(old(self).txs(), ids_of(tx@)),
    {
        Mempool::remove_transactions(self, tx.as_slice())
    }

    fn add_transaction_to_mempool(&mut self, tx: &Transaction)
        ensures
            final(self).capacity() == old(self).capacity(),
            final(self).txs() == if admits(old(self).txs(), old(self).capacity(), *tx) {
                old(self).txs().push(*tx)
            } else {
                old(self).txs()
            },
    {
        self.offer(tx)
    }
}

/// Removing a list of ids from transactions that have none of them
/// changes nothing.
proof fn lemma_without_absent(txs: Seq<Transaction>, ids: Set<Seq<char>>)
    requires
        forall|i: int| 0 <= i < txs.len() ==> !ids.contains(#[trigger] transaction_id(txs[i])),
    ensures
        without_ids(txs, ids) == txs,
    decreases txs.len(),
{
    if txs.len() > 0 {
        lemma_without_absent(txs.drop_last(), ids);
        assert(txs.drop_last().push(txs.last()) =~= txs);
    }
}

/// A transaction the pool took is then known to it: offering it again is
/// refused.
pub proof fn lemma_added_is_known(txs: Seq<Transaction>, tx: Transaction)
    ensures
        ids_of(txs.push(tx)).contains(transaction_id(tx)),
{
    assert(transaction_id(txs.push(tx)[txs.len() as int]) == transaction_id(tx));
}

/// Removing a transaction right after the pool took it gives back the pool
/// as it was.
pub proof fn lemma_remove_undoes_add(txs: Seq<Transaction>, tx: Transaction)
    requires
        !ids_of(txs).contains(transaction_id(tx)),
    ensures
        without_ids(txs.push(tx), ids_of(seq![tx])) == txs,
{
    let ids = ids_of(seq![tx]);
    assert(ids.contains(transaction_id(tx))) by {
        assert(transaction_id(seq![tx][0]) == transaction_id(tx));
    }
    assert forall|i: int| 0 <= i < txs.len() implies !ids.contains(#[trigger] transaction_id(txs[i])) by {
        if ids.contains(transaction_id(txs[i])) {
            let k = choose|k: int| 0 <= k < 1 && #[trigger] transaction_id(seq![tx][k]) == transaction_id(txs[i]);
            assert(ids_of(txs).contains(transaction_id(txs[i])));
        }
    }
    lemma_without_absent(txs, ids);
    assert(txs.push(tx).drop_last() =~= txs);
}

/// Clearing invalid transactions leaves only valid ones, and clearing
/// again changes nothing.
pub proof fn lemma_valid_only_stable(txs: Seq<Transaction>)
    ensures
        forall|i: int| 0 <= i < valid_only(txs).len() ==> problem(#[trigger] valid_only(txs)[i]) is None,
        valid_only(valid_only(txs)) == valid_only(txs),
    decreases txs.len(),
{
    if txs.len() > 0 {
        lemma_valid_only_stable(txs.drop_last());
        let rest = valid_only(txs.drop_last());
        if problem(txs.last()) is None {
            assert(rest.push(txs.last()).drop_last() =~= rest);
        }
    }
}

} // verus!
