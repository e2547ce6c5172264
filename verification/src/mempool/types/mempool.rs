//! A FIFO pool of pending UTXO transactions, with the set of outputs they
//! spend, and the checks a transaction must pass to join it.

use crate::common::ports::{Crypto, Hasher};
use crate::common::types::{leaves, tx_bytes, txs_view, Block, Tx, TxInputView, TxOutput, TxOutputView, TxView};
use vstd::prelude::*;

verus! {

/// A spendable output: the hash of the transaction that made it and its
/// index there.
#[derive(Clone, Copy, Debug, PartialEq, Eq, Hash)]
pub struct UtxoKey(pub crate::common::types::Hash, pub usize);

impl UtxoKey {
    /// Whether the two keys name the same output.
    pub fn same(&self, other: &UtxoKey) -> (r: bool)
        ensures
            r == (*self == *other),
    {
        self.0.equals(&other.0) && self.1 == other.1
    }
}

/// The output an input spends.
pub open spec fn key_of(i: TxInputView) -> UtxoKey {
    UtxoKey(i.prev_tx, i.output_index)
}

/// The unspent outputs, each under its key; no key occurs twice.
pub struct UtxoSet {
    entries: Vec<(UtxoKey, TxOutput)>,
}

impl UtxoSet {
    #[verifier::type_invariant]
    spec fn keys_distinct(self) -> bool {
        forall|i: int, j: int| 0 <= i < j < self.entries@.len() ==> self.entries@[i].0 != self.entries@[j].0
    }

    spec fn has_key_at(self, k: UtxoKey, i: int) -> bool {
        0 <= i < self.entries@.len() && self.entries@[i].0 == k
    }
}

impl View for UtxoSet {
    type V = Map<UtxoKey, TxOutputView>;

    closed spec fn view(&self) -> Map<UtxoKey, TxOutputView> {
        Map::new(
            |k: UtxoKey| exists|i: int| self.has_key_at(k, i),
            |k: UtxoKey| self.entries@[choose|i: int| self.has_key_at(k, i)].1@,
        )
    }
}

impl UtxoSet {
    /// An empty set.
    pub fn new() -> (s: UtxoSet)
        ensures
            s@ == Map::<UtxoKey, TxOutputView>::empty(),
    {
        let s = UtxoSet { entries: Vec::new() };
        assert(s@ =~= Map::<UtxoKey, TxOutputView>::empty());
        s
    }

    fn find(&self, k: &UtxoKey) -> (r: Option<usize>)
        ensures
            match r {
                Some(i) => self.has_key_at(*k, i as int),
                None => forall|i: int| !self.has_key_at(*k, i),
            },
    {
        let mut i: usize = 0;
        while i < self.entries.len()
            invariant
                0 <= i <= self.entries@.len(),
                forall|j: int| 0 <= j < i ==> !self.has_key_at(*k, j),
            decreases self.entries@.len() - i,
        {
            if self.entries[i].0.same(k) {
                return Some(i);
            }
            i = i + 1;
        }
        None
    }

    /// The output under `k`, if any.
    pub fn get(&self, k: &UtxoKey) -> (r: Option<&TxOutput>)
        ensures
            match r {
                Some(o) => self@.contains_key(*k) && o@ == self@[*k],
                None => !self@.contains_key(*k),
            },
    {
        proof {
            use_type_invariant(self);
        }
        match self.find(k) {
            Some(i) => {
                proof {
                    assert(self@.contains_key(*k));
                    let c = choose|j: int| self.has_key_at(*k, j);
                    assert(c == i as int);
                }
                Some(&self.entries[i].1)
            },
            None => None,
        }
    }

    /// Whether there is an output under `k`.
    pub fn contains_key(&self, k: &UtxoKey) -> (r: bool)
        ensures
            r == self@.contains_key(*k),
    {
        self.find(k).is_some()
    }

    /// Puts `out` under `k`, replacing what was there.
    pub fn insert(&mut self, k: UtxoKey, out: TxOutput)
        ensures
            final(self)@ == old(self)@.insert(k, out@),
    {
        proof {
            use_type_invariant(&*self);
        }
        let ghost v = out@;
        let ghost before = *self;
        let ghost e0 = self.entries@;
        let found = self.find(&k);
        let mut entries: Vec<(UtxoKey, TxOutput)> = Vec::new();
        std::mem::swap(&mut entries, &mut self.entries);
        let ghost at: int;
        match found {
            Some(i) => {
                entries.set(i, (k, out));
                proof {
                    at = i as int;
                    assert forall|j: int| 0 <= j < e0.len() implies #[trigger] entries@[j].0 == e0[j].0 by {}
                }
            },
            None => {
                entries.push((k, out));
                proof {
                    at = e0.len() as int;
                }
            },
        }
        assert(entries@[at].0 == k);
        assert forall|j: int| 0 <= j < entries@.len() && j != at implies #[trigger] entries@[j] == e0[j] by {}
        assert(before.keys_distinct());
        assert forall|j: int| 0 <= j < entries@.len() && j != at implies #[trigger] entries@[j].0 != k by {
            assert(!before.has_key_at(k, j) || j == at);
        }
        assert forall|j1: int, j2: int| 0 <= j1 < j2 < entries@.len() implies entries@[j1].0 != entries@[j2].0 by {
            if j1 != at && j2 != at {
                assert(e0[j1].0 != e0[j2].0);
            }
        }
        self.entries = entries;
        proof {
            assert(self.has_key_at(k, at));
            let c = choose|j: int| self.has_key_at(k, j);
            assert(c == at);
            assert forall|x: UtxoKey| x != k implies (#[trigger] self@.contains_key(x)) == before@.contains_key(x) by {
                if before@.contains_key(x) {
                    let c0 = choose|j: int| before.has_key_at(x, j);
                    assert(self.has_key_at(x, c0));
                }
                if self@.contains_key(x) {
                    let c1 = choose|j: int| self.has_key_at(x, j);
                    assert(before.has_key_at(x, c1));
                }
            }
            assert forall|x: UtxoKey| x != k && before@.contains_key(x) implies self@[x] == before@[x] by {
                let c0 = choose|j: int| before.has_key_at(x, j);
                assert(self.has_key_at(x, c0));
                let c1 = choose|j: int| self.has_key_at(x, j);
                assert(c1 == c0);
            }
            assert(self@ =~= before@.insert(k, v));
        }
    }
}


/// A set of output keys, as the pool keeps the outputs its pending
/// transactions spend.
pub struct KeySet {
    keys: Vec<UtxoKey>,
}

impl View for KeySet {
    type V = Set<UtxoKey>;

    closed spec fn view(&self) -> Set<UtxoKey> {
        self.keys@.to_set()
    }
}

impl KeySet {
    /// An empty set.
    pub fn new() -> (s: KeySet)
        ensures
            s@ == Set::<UtxoKey>::empty(),
    {
        let s = KeySet { keys: Vec::new() };
        assert(s@ =~= Set::<UtxoKey>::empty());
        s
    }

    /// Whether `k` is in the set.
    pub fn contains(&self, k: &UtxoKey) -> (r: bool)
        ensures
            r == self@.contains(*k),
    {
        let mut i: usize = 0;
        while i < self.keys.len()
            invariant
                0 <= i <= self.keys@.len(),
                forall|j: int| 0 <= j < i ==> self.keys@[j] != *k,
            decreases self.keys@.len() - i,
        {
            if self.keys[i].same(k) {
                assert(self.keys@.contains(*k));
                return true;
            }
            i = i + 1;
        }
        false
    }

    /// Adds `k`; returns whether it was new.
    pub fn insert(&mut self, k: UtxoKey) -> (fresh: bool)
        ensures
            final(self)@ == old(self)@.insert(k),
            fresh == !old(self)@.contains(k),
    {
        if self.contains(&k) {
            assert(old(self)@.insert(k) =~= old(self)@);
            false
        } else {
            self.keys.push(k);
            proof {
                old(self).keys@.lemma_push_to_set_commute(k);
            }
            true
        }
    }
}

/// The outputs a transaction's inputs spend.
pub open spec fn input_keys(t: TxView) -> Set<UtxoKey> {
    Set::new(|k: UtxoKey| exists|i: int| 0 <= i < t.inputs.len() && #[trigger] key_of(t.inputs[i]) == k)
}

/// The outputs a list of transactions spends.
pub open spec fn spent_keys(txs: Seq<TxView>) -> Set<UtxoKey>
    decreases txs.len(),
{
    if txs.len() == 0 {
        Set::empty()
    } else {
        spent_keys(txs.drop_last()).union(input_keys(txs.last()))
    }
}

/// Adds the keys of the outputs `tx` spends.
fn add_input_keys(set: &mut KeySet, tx: &Tx)
    ensures
        final(set)@ == old(set)@.union(input_keys(tx@)),
{
    let ghost ins = tx@.inputs;
    let mut i: usize = 0;
    while i < tx.inputs.len()
        invariant
            0 <= i <= tx.inputs@.len(),
            ins == tx@.inputs,
            set@ == old(set)@.union(Set::new(|k: UtxoKey| exists|j: int| 0 <= j < i && #[trigger] key_of(ins[j]) == k)),
        decreases tx.inputs@.len() - i,
    {
        let input = &tx.inputs[i];
        let k = UtxoKey(input.prev_tx, input.output_index);
        assert(k == key_of(ins[i as int]));
        set.insert(k);
        assert(set@ =~= old(set)@.union(Set::new(|k: UtxoKey| exists|j: int| 0 <= j < i + 1 && #[trigger] key_of(ins[j]) == k)));
        i = i + 1;
    }
    assert(set@ =~= old(set)@.union(input_keys(tx@)));
}

/// The set of outputs that `txs` spend.
fn keys_spent_by(txs: &Vec<Tx>) -> (set: KeySet)
    ensures
        set@ == spent_keys(txs_view(txs@)),
{
    let mut set = KeySet::new();
    let ghost tv = txs_view(txs@);
    let mut i: usize = 0;
    while i < txs.len()
        invariant
            0 <= i <= txs@.len(),
            tv == txs_view(txs@),
            set@ == spent_keys(tv.take(i as int)),
        decreases txs@.len() - i,
    {
        add_input_keys(&mut set, &txs[i]);
        assert(tv.take(i + 1).drop_last() =~= tv.take(i as int));
        i = i + 1;
    }
    assert(tv.take(tv.len() as int) =~= tv);
    set
}


/// Whether a transaction has at least one input and one output.
pub open spec fn has_inputs_and_outputs(t: TxView) -> bool {
    t.inputs.len() > 0 && t.outputs.len() > 0
}

/// Whether every output of a transaction pays a positive amount.
pub open spec fn all_outputs_positive(t: TxView) -> bool {
    forall|i: int| 0 <= i < t.outputs.len() ==> #[trigger] t.outputs[i].amount > 0
}

/// Whether no two inputs spend the same output, and every input spends an
/// unspent output that no pending transaction spends already.
pub open spec fn inputs_unique_unspent(t: TxView, utxo: Map<UtxoKey, TxOutputView>, spent: Set<UtxoKey>) -> bool {
    &&& forall|i: int, j: int|
        #![trigger t.inputs[i], t.inputs[j]]
        0 <= i < j < t.inputs.len() ==> key_of(t.inputs[i]) != key_of(t.inputs[j])
    &&& forall|i: int|
        0 <= i < t.inputs.len() ==> utxo.contains_key(#[trigger] key_of(t.inputs[i])) && !spent.contains(
            key_of(t.inputs[i]),
        )
}

/// The sum of the amounts of the outputs that `ins` spend.
pub open spec fn inputs_total(ins: Seq<TxInputView>, utxo: Map<UtxoKey, TxOutputView>) -> int
    decreases ins.len(),
{
    if ins.len() == 0 {
        0
    } else {
        inputs_total(ins.drop_last(), utxo) + utxo[key_of(ins.last())].amount
    }
}

/// The sum of the amounts of `outs`.
pub open spec fn outputs_total(outs: Seq<TxOutputView>) -> int
    decreases outs.len(),
{
    if outs.len() == 0 {
        0
    } else {
        outputs_total(outs.drop_last()) + outs.last().amount
    }
}

/// Whether every input spends a known output, every output is positive,
/// both totals fit in a `u64`, and the inputs cover the outputs.
pub open spec fn has_surplus(t: TxView, utxo: Map<UtxoKey, TxOutputView>) -> bool {
    &&& forall|i: int| 0 <= i < t.inputs.len() ==> utxo.contains_key(#[trigger] key_of(t.inputs[i]))
    &&& inputs_total(t.inputs, utxo) <= u64::MAX
    &&& all_outputs_positive(t)
    &&& outputs_total(t.outputs) <= u64::MAX
    &&& inputs_total(t.inputs, utxo) >= outputs_total(t.outputs)
}

/// Whether every input spends a known output paid to the input's public
/// key, and carries a valid signature of `msg` under that key.
pub open spec fn inputs_signed<C: Crypto + ?Sized>(
    t: TxView,
    utxo: Map<UtxoKey, TxOutputView>,
    crypto: &C,
    msg: Seq<u8>,
) -> bool {
    forall|i: int|
        0 <= i < t.inputs.len() ==> {
            let input = #[trigger] t.inputs[i];
            &&& utxo.contains_key(key_of(input))
            &&& utxo[key_of(input)].recipient == input.pubkey
            &&& crypto.spec_verify(input.pubkey, msg, input.signature)
        }
}

proof fn lemma_inputs_total_prefix(ins: Seq<TxInputView>, utxo: Map<UtxoKey, TxOutputView>, j: int)
    requires
        0 <= j <= ins.len(),
    ensures
        inputs_total(ins.take(j), utxo) <= inputs_total(ins, utxo),
    decreases ins.len(),
{
    if j == ins.len() {
        assert(ins.take(j) =~= ins);
    } else {
        lemma_inputs_total_prefix(ins.drop_last(), utxo, j);
        assert(ins.drop_last().take(j) =~= ins.take(j));
    }
}

proof fn lemma_outputs_total_prefix(outs: Seq<TxOutputView>, j: int)
    requires
        0 <= j <= outs.len(),
    ensures
        outputs_total(outs.take(j)) <= outputs_total(outs),
    decreases outs.len(),
{
    if j == outs.len() {
        assert(outs.take(j) =~= outs);
    } else {
        lemma_outputs_total_prefix(outs.drop_last(), j);
        assert(outs.drop_last().take(j) =~= outs.take(j));
    }
}

fn bytes_equal(a: &[u8], b: &[u8]) -> (r: bool)
    ensures
        r == (a@ == b@),
{
    if a.len() != b.len() {
        return false;
    }
    let mut i: usize = 0;
    while i < a.len()
        invariant
            0 <= i <= a@.len(),
            a@.len() == b@.len(),
            forall|j: int| 0 <= j < i ==> a@[j] == b@[j],
        decreases a@.len() - i,
    {
        if a[i] != b[i] {
            return false;
        }
        i = i + 1;
    }
    assert(a@ =~= b@);
    true
}

fn any_input_and_output(tx: &Tx) -> (r: bool)
    ensures
        r == has_inputs_and_outputs(tx@),
{
    !tx.inputs.is_empty() && !tx.outputs.is_empty()
}

fn is_transfering_something(tx: &Tx) -> (r: bool)
    ensures
        r == all_outputs_positive(tx@),
{
    let mut i: usize = 0;
    while i < tx.outputs.len()
        invariant
            0 <= i <= tx.outputs@.len(),
            forall|j: int| 0 <= j < i ==> #[trigger] tx@.outputs[j].amount > 0,
        decreases tx.outputs@.len() - i,
    {
        if tx.outputs[i].amount == 0 {
            assert(tx@.outputs[i as int].amount == 0);
            return false;
        }
        i = i + 1;
    }
    true
}

fn does_input_exists_and_is_unique(tx: &Tx, utxo_map: &UtxoSet, mempool_spent: &KeySet) -> (r: bool)
    ensures
        r == inputs_unique_unspent(tx@, utxo_map@, mempool_spent@),
{
    let ghost ins = tx@.inputs;
    let mut seen = KeySet::new();
    let mut i: usize = 0;
    while i < tx.inputs.len()
        invariant
            0 <= i <= tx.inputs@.len(),
            ins == tx@.inputs,
            seen@ == Set::new(|k: UtxoKey| exists|j: int| 0 <= j < i && #[trigger] key_of(ins[j]) == k),
            forall|a: int, b: int| #![trigger ins[a], ins[b]] 0 <= a < b < i ==> key_of(ins[a]) != key_of(ins[b]),
            forall|a: int|
                0 <= a < i ==> utxo_map@.contains_key(#[trigger] key_of(ins[a])) && !mempool_spent@.contains(
                    key_of(ins[a]),
                ),
        decreases tx.inputs@.len() - i,
    {
        let input = &tx.inputs[i];
        let key = UtxoKey(input.prev_tx, input.output_index);
        assert(key == key_of(ins[i as int]));
        let ghost before = seen@;
        if !seen.insert(key) {
            proof {
                assert(before.contains(key));
                let j = choose|j: int| 0 <= j < i && #[trigger] key_of(ins[j]) == key;
                assert(key_of(ins[j]) == key_of(ins[i as int]));
            }
            return false;
        }
        if !utxo_map.contains_key(&key) {
            return false;
        }
        if mempool_spent.contains(&key) {
            return false;
        }
        assert(seen@ =~= Set::new(|k: UtxoKey| exists|j: int| 0 <= j < i + 1 && #[trigger] key_of(ins[j]) == k));
        assert forall|a: int, b: int| #![trigger ins[a], ins[b]] 0 <= a < b < i + 1 implies key_of(ins[a]) != key_of(ins[b]) by {
            if b == i {
                assert(before.contains(key_of(ins[a])));
            }
        }
        i = i + 1;
    }
    true
}

fn has_superavit(tx: &Tx, utxo_map: &UtxoSet) -> (r: bool)
    ensures
        r == has_surplus(tx@, utxo_map@),
{
    let ghost ins = tx@.inputs;
    let ghost outs = tx@.outputs;
    let ghost utxo = utxo_map@;
    let mut input_sum: u64 = 0;
    let mut i: usize = 0;
    while i < tx.inputs.len()
        invariant
            0 <= i <= tx.inputs@.len(),
            ins == tx@.inputs,
            utxo == utxo_map@,
            input_sum == inputs_total(ins.take(i as int), utxo),
            forall|a: int| 0 <= a < i ==> utxo.contains_key(#[trigger] key_of(ins[a])),
        decreases tx.inputs@.len() - i,
    {
        let input = &tx.inputs[i];
        let key = UtxoKey(input.prev_tx, input.output_index);
        assert(key == key_of(ins[i as int]));
        assert(ins.take(i + 1).drop_last() =~= ins.take(i as int));
        let utxo_out = match utxo_map.get(&key) {
            Some(v) => v,
            None => return false,
        };
        input_sum = match input_sum.checked_add(utxo_out.amount) {
            Some(v) => v,
            None => {
                proof {
                    lemma_inputs_total_prefix(ins, utxo, i + 1);
                }
                return false;
            },
        };
        i = i + 1;
    }
    assert(ins.take(ins.len() as int) =~= ins);
    let mut output_sum: u64 = 0;
    let mut j: usize = 0;
    while j < tx.outputs.len()
        invariant
            0 <= j <= tx.outputs@.len(),
            outs == tx@.outputs,
            output_sum == outputs_total(outs.take(j as int)),
            forall|a: int| 0 <= a < j ==> #[trigger] outs[a].amount > 0,
        decreases tx.outputs@.len() - j,
    {
        let output = &tx.outputs[j];
        assert(outs.take(j + 1).drop_last() =~= outs.take(j as int));
        if output.amount == 0 {
            assert(outs[j as int].amount == 0);
            return false;
        }
        output_sum = match output_sum.checked_add(output.amount) {
            Some(v) => v,
            None => {
                proof {
                    lemma_outputs_total_prefix(outs, j + 1);
                }
                return false;
            },
        };
        j = j + 1;
    }
    assert(outs.take(outs.len() as int) =~= outs);
    input_sum >= output_sum
}

fn check_transactions_signature<C: Crypto + ?Sized, H: Hasher + ?Sized>(
    tx: &Tx,
    utxo_map: &UtxoSet,
    crypto: &C,
    hasher: &H,
) -> (r: bool)
    ensures
        r == inputs_signed(tx@, utxo_map@, crypto, hasher.spec_hash(tx_bytes(tx@)).0@),
{
    let message = tx.hash(hasher);
    let ghost ins = tx@.inputs;
    let mut i: usize = 0;
    while i < tx.inputs.len()
        invariant
            0 <= i <= tx.inputs@.len(),
            ins == tx@.inputs,
            message == hasher.spec_hash(tx_bytes(tx@)),
            forall|a: int|
                0 <= a < i ==> {
                    let input = #[trigger] ins[a];
                    &&& utxo_map@.contains_key(key_of(input))
                    &&& utxo_map@[key_of(input)].recipient == input.pubkey
                    &&& crypto.spec_verify(input.pubkey, message.0@, input.signature)
                },
        decreases tx.inputs@.len() - i,
    {
        let input = &tx.inputs[i];
        assert(ins[i as int] == input@);
        let key = UtxoKey(input.prev_tx, input.output_index);
        let utxo = match utxo_map.get(&key) {
            Some(u) => u,
            None => return false,
        };
        if !bytes_equal(input.pubkey.as_slice(), utxo.recipient.as_slice()) {
            return false;
        }
        if !crypto.verify(input.pubkey.as_slice(), message.0.as_slice(), input.signature.as_slice()) {
            return false;
        }
        i = i + 1;
    }
    true
}


proof fn lemma_txs_view_push(s: Seq<Tx>, t: Tx)
    ensures
        txs_view(s.push(t)) == txs_view(s).push(t@),
{
    assert(txs_view(s.push(t)) =~= txs_view(s).push(t@));
}

/// Decides whether a transaction may join the pool, given the unspent
/// outputs and the outputs the pool's transactions already spend.
pub trait TxValidator {
    /// Whether `tx` is accepted.
    spec fn spec_validate(&self, tx: TxView, utxo: Map<UtxoKey, TxOutputView>, spent: Set<UtxoKey>) -> bool;

    /// Decides on `tx`.
    fn validate(&self, tx: &Tx, utxo_set: &UtxoSet, spent: &KeySet) -> (r: bool)
        ensures
            r == self.spec_validate(tx@, utxo_set@, spent@),
    ;
}

/// A validator that accepts every transaction.
pub struct AcceptAll;

impl TxValidator for AcceptAll {
    open spec fn spec_validate(&self, tx: TxView, utxo: Map<UtxoKey, TxOutputView>, spent: Set<UtxoKey>) -> bool {
        true
    }

    fn validate(&self, tx: &Tx, utxo_set: &UtxoSet, spent: &KeySet) -> (r: bool) {
        true
    }
}

/// Pending transactions in arrival order and the outputs they spend.
struct Pool {
    transactions: Vec<Tx>,
    spent: KeySet,
}

fn empty_pool() -> (p: Pool)
    ensures
        p.spent@ == spent_keys(txs_view(p.transactions@)),
        p.transactions@.len() == 0,
{
    let p = Pool { transactions: Vec::new(), spent: KeySet::new() };
    assert(txs_view(p.transactions@) =~= Seq::<TxView>::empty());
    p
}

/// The pending transactions in arrival order, the outputs they spend, and
/// the validator that admits them.  The spent outputs are always exactly
/// those the pending transactions spend.
pub struct Mempool<V: TxValidator + ?Sized> {
    pool: Pool,
    tx_validator: Box<V>,
}

impl<V: TxValidator + ?Sized> Mempool<V> {
    #[verifier::type_invariant]
    spec fn inv(self) -> bool {
        self.pool.spent@ == spent_keys(txs_view(self.pool.transactions@))
    }

    /// The pending transactions, oldest first.
    pub closed spec fn pending(&self) -> Seq<TxView> {
        txs_view(self.pool.transactions@)
    }

    /// The outputs the pending transactions spend.
    pub closed spec fn spent(&self) -> Set<UtxoKey> {
        self.pool.spent@
    }

    /// Whether the pool's validator accepts `tx` against `utxo` and `spent`.
    pub closed spec fn accepts(&self, tx: TxView, utxo: Map<UtxoKey, TxOutputView>, spent: Set<UtxoKey>) -> bool {
        self.tx_validator.spec_validate(tx, utxo, spent)
    }

    /// Whether the two pools have the same validator.
    pub closed spec fn same_validator(&self, other: &Mempool<V>) -> bool {
        self.tx_validator == other.tx_validator
    }

    /// The spent outputs are exactly those the pending transactions spend
    /// (every pool meets this; each operation that makes or changes one
    /// ensures it).
    pub open spec fn wf(&self) -> bool {
        self.spent() == spent_keys(self.pending())
    }

    /// An empty pool with the given validator.
    pub fn new(tx_validator: Box<V>) -> (m: Mempool<V>)
        ensures
            m.wf(),
            m.pending() == Seq::<TxView>::empty(),
            forall|tx: TxView, utxo: Map<UtxoKey, TxOutputView>, spent: Set<UtxoKey>|
                #[trigger] m.accepts(tx, utxo, spent) == tx_validator.spec_validate(tx, utxo, spent),
    {
        let pool = empty_pool();
        let m = Mempool { pool, tx_validator };
        assert(m.pending() =~= Seq::<TxView>::empty());
        m
    }

    /// Up to `n` of the oldest pending transactions, left in the pool.
    pub fn peek_first_n(&self, n: usize) -> (r: Vec<Tx>)
        ensures
            txs_view(r@) == self.pending().take(if n < self.pending().len() { n as int } else { self.pending().len() as int }),
    {
        let count = if n < self.pool.transactions.len() { n } else { self.pool.transactions.len() };
        let ghost pv = self.pending();
        let mut r: Vec<Tx> = Vec::new();
        let mut i: usize = 0;
        while i < count
            invariant
                0 <= i <= count,
                count <= self.pool.transactions@.len(),
                pv == txs_view(self.pool.transactions@),
                txs_view(r@) == pv.take(i as int),
            decreases count - i,
        {
            let c = self.pool.transactions[i].clone();
            proof {
                lemma_txs_view_push(r@, c);
                assert(pv.take(i + 1) =~= pv.take(i as int).push(pv[i as int]));
            }
            r.push(c);
            i = i + 1;
        }
        r
    }

    /// Removes and returns up to `n` of the oldest pending transactions;
    /// the outputs they spent are released.
    pub fn get_first_n(&mut self, n: usize) -> (r: Vec<Tx>)
        ensures
            final(self).wf(),
            final(self).same_validator(old(self)),
            forall|t: TxView, u: Map<UtxoKey, TxOutputView>, s: Set<UtxoKey>|
                #[trigger] final(self).accepts(t, u, s) == old(self).accepts(t, u, s),
            ({
                let p = old(self).pending();
                let k = if n < p.len() { n as int } else { p.len() as int };
                &&& txs_view(r@) == p.take(k)
                &&& final(self).pending() == p.skip(k)
            }),
    {
        let count = if n < self.pool.transactions.len() { n } else { self.pool.transactions.len() };
        let ghost pv = self.pending();
        let mut taken: Vec<Tx> = Vec::new();
        let mut rest: Vec<Tx> = Vec::new();
        let mut old_pool = empty_pool();
        std::mem::swap(&mut old_pool, &mut self.pool);
        let all = old_pool.transactions;
        assert(txs_view(all@) == pv);
        let mut i: usize = 0;
        while i < all.len()
            invariant
                0 <= i <= all@.len(),
                count <= all@.len(),
                pv == txs_view(all@),
                txs_view(taken@) == pv.take(if i < count { i as int } else { count as int }),
                txs_view(rest@) == if i < count { Seq::<TxView>::empty() } else { pv.subrange(count as int, i as int) },
            decreases all@.len() - i,
        {
            let c = all[i].clone();
            assert(c@ == pv[i as int]);
            if i < count {
                proof {
                    lemma_txs_view_push(taken@, c);
                    assert(pv.take(i + 1) =~= pv.take(i as int).push(pv[i as int]));
                }
                taken.push(c);
            } else {
                proof {
                    lemma_txs_view_push(rest@, c);
                    assert(pv.subrange(count as int, i + 1) =~= pv.subrange(count as int, i as int).push(
                        pv[i as int],
                    ));
                }
                rest.push(c);
            }
            i = i + 1;
        }
        assert(pv.subrange(count as int, pv.len() as int) =~= pv.skip(count as int));
        assert(txs_view(rest@) =~= pv.skip(count as int));
        let spent = keys_spent_by(&rest);
        self.pool = Pool { transactions: rest, spent };
        taken
    }

    /// Admits `tx` if the validator accepts it against `utxo_set` and the
    /// outputs already spent; it then joins the end of the pool and its
    /// inputs' outputs count as spent.  Otherwise nothing changes.
    pub fn push(&mut self, tx: Tx, utxo_set: &UtxoSet)
        ensures
            final(self).wf(),
            final(self).same_validator(old(self)),
            forall|t: TxView, u: Map<UtxoKey, TxOutputView>, s: Set<UtxoKey>|
                #[trigger] final(self).accepts(t, u, s) == old(self).accepts(t, u, s),
            final(self).pending() == if old(self).accepts(tx@, utxo_set@, old(self).spent()) {
                old(self).pending().push(tx@)
            } else {
                old(self).pending()
            },
    {
        proof {
            use_type_invariant(&*self);
        }
        if !self.tx_validator.validate(&tx, utxo_set, &self.pool.spent) {
            return;
        }
        let ghost pv = self.pending();
        let mut p = empty_pool();
        std::mem::swap(&mut p, &mut self.pool);
        add_input_keys(&mut p.spent, &tx);
        p.transactions.push(tx);
        assert(txs_view(p.transactions@) =~= pv.push(tx@));
        assert(txs_view(p.transactions@).drop_last() =~= pv);
        self.pool = p;
    }

    /// The pending transactions after offering each of `txs` in turn to a
    /// pool that starts as this one, against `utxo`.
    pub open spec fn admitted(&self, txs: Seq<TxView>, utxo: Map<UtxoKey, TxOutputView>) -> Seq<TxView>
        decreases txs.len(),
    {
        if txs.len() == 0 {
            self.pending()
        } else {
            let before = self.admitted(txs.drop_last(), utxo);
            if self.accepts(txs.last(), utxo, spent_keys(before)) {
                before.push(txs.last())
            } else {
                before
            }
        }
    }

    /// Offers each of `txs` in turn, as `push` does.
    pub fn push_n(&mut self, txs: Vec<Tx>, utxo_map: &UtxoSet)
        ensures
            final(self).wf(),
            final(self).same_validator(old(self)),
            forall|t: TxView, u: Map<UtxoKey, TxOutputView>, s: Set<UtxoKey>|
                #[trigger] final(self).accepts(t, u, s) == old(self).accepts(t, u, s),
            final(self).pending() == old(self).admitted(txs_view(txs@), utxo_map@),
    {
        proof {
            use_type_invariant(&*self);
        }
        let ghost start = *self;
        let ghost tv = txs_view(txs@);
        let mut i: usize = 0;
        while i < txs.len()
            invariant
                0 <= i <= txs@.len(),
                tv == txs_view(txs@),
                self.wf(),
                self.same_validator(&start),
                forall|t: TxView, u: Map<UtxoKey, TxOutputView>, s: Set<UtxoKey>|
                    #[trigger] self.accepts(t, u, s) == start.accepts(t, u, s),
                self.pending() == start.admitted(tv.take(i as int), utxo_map@),
            decreases txs@.len() - i,
        {
            let tx = txs[i].clone();
            self.push(tx, utxo_map);
            assert(tv.take(i + 1).drop_last() =~= tv.take(i as int));
            i = i + 1;
        }
        assert(tv.take(tv.len() as int) =~= tv);
    }
}


/// The transactions of `txs` whose hash is not in `gone`, in order.
pub open spec fn kept<H: Hasher + ?Sized>(hasher: &H, txs: Seq<TxView>, gone: Set<crate::common::types::Hash>) -> Seq<TxView>
    decreases txs.len(),
{
    if txs.len() == 0 {
        Seq::empty()
    } else {
        let rest = kept(hasher, txs.drop_last(), gone);
        if gone.contains(hasher.spec_hash(tx_bytes(txs.last()))) {
            rest
        } else {
            rest.push(txs.last())
        }
    }
}

fn hash_in(hashes: &Vec<crate::common::types::Hash>, h: &crate::common::types::Hash) -> (r: bool)
    ensures
        r == hashes@.contains(*h),
{
    let mut i: usize = 0;
    while i < hashes.len()
        invariant
            0 <= i <= hashes@.len(),
            forall|j: int| 0 <= j < i ==> hashes@[j] != *h,
        decreases hashes@.len() - i,
    {
        if hashes[i].equals(h) {
            assert(hashes@[i as int] == *h);
            return true;
        }
        i = i + 1;
    }
    false
}

impl Default for Mempool<AcceptAll> {
    fn default() -> (m: Mempool<AcceptAll>)
        ensures
            m.wf(),
            m.pending() == Seq::<TxView>::empty(),
            forall|tx: TxView, utxo: Map<UtxoKey, TxOutputView>, spent: Set<UtxoKey>|
                #[trigger] m.accepts(tx, utxo, spent),
    {
        Mempool::new(Box::new(AcceptAll))
    }
}

impl<V: TxValidator + ?Sized> Mempool<V> {
    /// Drops the pending transactions whose hash is the hash of a
    /// transaction of `block`, keeping the others in order, and recomputes
    /// the spent outputs from what is left.
    pub fn remove_included_txs<H: Hasher + ?Sized>(&mut self, block: &Block, hasher: &H)
        ensures
            final(self).wf(),
            final(self).same_validator(old(self)),
            forall|t: TxView, u: Map<UtxoKey, TxOutputView>, s: Set<UtxoKey>|
                #[trigger] final(self).accepts(t, u, s) == old(self).accepts(t, u, s),
            final(self).pending() == kept(hasher, old(self).pending(), leaves(hasher, txs_view(block.txs@)).to_set()),
    {
        let ghost bv = txs_view(block.txs@);
        let mut tx_hashes: Vec<crate::common::types::Hash> = Vec::new();
        let mut i: usize = 0;
        while i < block.txs.len()
            invariant
                0 <= i <= block.txs@.len(),
                bv == txs_view(block.txs@),
                tx_hashes@ == leaves(hasher, bv.take(i as int)),
            decreases block.txs@.len() - i,
        {
            tx_hashes.push(block.txs[i].hash(hasher));
            assert(tx_hashes@ =~= leaves(hasher, bv.take(i + 1)));
            i = i + 1;
        }
        assert(bv.take(bv.len() as int) =~= bv);
        let ghost gone = leaves(hasher, bv).to_set();
        let ghost pv = self.pending();
        let mut old_pool = empty_pool();
        std::mem::swap(&mut old_pool, &mut self.pool);
        let all = old_pool.transactions;
        let mut rest: Vec<Tx> = Vec::new();
        let mut j: usize = 0;
        while j < all.len()
            invariant
                0 <= j <= all@.len(),
                pv == txs_view(all@),
                gone == tx_hashes@.to_set(),
                txs_view(rest@) == kept(hasher, pv.take(j as int), gone),
            decreases all@.len() - j,
        {
            let h = all[j].hash(hasher);
            assert(pv.take(j + 1).drop_last() =~= pv.take(j as int));
            assert(pv.take(j + 1).last() == all@[j as int]@);
            if !hash_in(&tx_hashes, &h) {
                let c = all[j].clone();
                proof {
                    lemma_txs_view_push(rest@, c);
                }
                rest.push(c);
            }
            j = j + 1;
        }
        assert(pv.take(pv.len() as int) =~= pv);
        let spent = keys_spent_by(&rest);
        self.pool = Pool { transactions: rest, spent };
    }

    /// Whether `tx` may join the pool: it has inputs and outputs, every
    /// output is positive, its inputs are distinct, known and not spent by
    /// a pending transaction, its inputs cover its outputs, and each input
    /// is signed by the key its output was paid to.
    pub fn is_tx_valid<C: Crypto + ?Sized, H: Hasher + ?Sized>(
        &self,
        tx: &Tx,
        utxo_map: &UtxoSet,
        crypto: &C,
        hasher: &H,
    ) -> (r: bool)
        ensures
            r == (has_inputs_and_outputs(tx@) && all_outputs_positive(tx@) && inputs_unique_unspent(
                tx@,
                utxo_map@,
                self.spent(),
            ) && has_surplus(tx@, utxo_map@) && inputs_signed(
                tx@,
                utxo_map@,
                crypto,
                hasher.spec_hash(tx_bytes(tx@)).0@,
            )),
    {
        any_input_and_output(tx) && is_transfering_something(tx) && does_input_exists_and_is_unique(
            tx,
            utxo_map,
            &self.pool.spent,
        ) && has_superavit(tx, utxo_map) && check_transactions_signature(tx, utxo_map, crypto, hasher)
    }
}

/// After a block's transactions are removed, no pending transaction has
/// the hash of one of them, and every pending transaction that has not is
/// kept.
pub proof fn lemma_kept_exact<H: Hasher + ?Sized>(hasher: &H, txs: Seq<TxView>, gone: Set<crate::common::types::Hash>)
    ensures
        forall|i: int|
            0 <= i < kept(hasher, txs, gone).len() ==> !gone.contains(
                hasher.spec_hash(tx_bytes(#[trigger] kept(hasher, txs, gone)[i])),
            ),
        forall|i: int|
            0 <= i < txs.len() && !gone.contains(hasher.spec_hash(tx_bytes(#[trigger] txs[i])))
                ==> kept(hasher, txs, gone).contains(txs[i]),
        kept(hasher, txs, gone).len() <= txs.len(),
    decreases txs.len(),
{
    if txs.len() > 0 {
        let init = txs.drop_last();
        lemma_kept_exact(hasher, init, gone);
        let rest = kept(hasher, init, gone);
        assert forall|i: int|
            0 <= i < txs.len() && !gone.contains(hasher.spec_hash(tx_bytes(#[trigger] txs[i])))
                implies kept(hasher, txs, gone).contains(txs[i]) by {
            if i < txs.len() - 1 {
                assert(init[i] == txs[i]);
                let k = choose|k: int| 0 <= k < rest.len() && rest[k] == init[i];
                if !gone.contains(hasher.spec_hash(tx_bytes(txs.last()))) {
                    assert(rest.push(txs.last())[k] == txs[i]);
                }
            } else {
                assert(rest.push(txs.last())[rest.len() as int] == txs[i]);
            }
        }
    }
}

/// The transactions `get_first_n` hands out, followed by those it leaves,
/// are the pending transactions as they were.
pub proof fn lemma_first_n_split(pending: Seq<TxView>, k: int)
    requires
        0 <= k <= pending.len(),
    ensures
        pending.take(k) + pending.skip(k) == pending,
{
    assert(pending.take(k) + pending.skip(k) =~= pending);
}

/// Whether no output is spent twice by a list of transactions: neither
/// twice by one transaction nor by two of them.
pub open spec fn no_double_spend(txs: Seq<TxView>) -> bool {
    forall|i: int, j: int, a: int, b: int|
        #![trigger key_of(txs[i].inputs[a]), key_of(txs[j].inputs[b])]
        0 <= i < txs.len() && 0 <= j < txs.len() && 0 <= a < txs[i].inputs.len() && 0 <= b < txs[j].inputs.len()
            && (i != j || a != b) ==> key_of(txs[i].inputs[a]) != key_of(txs[j].inputs[b])
}

proof fn lemma_spent_keys_contains(txs: Seq<TxView>, i: int, a: int)
    requires
        0 <= i < txs.len(),
        0 <= a < txs[i].inputs.len(),
    ensures
        spent_keys(txs).contains(key_of(txs[i].inputs[a])),
    decreases txs.len(),
{
    if i < txs.len() - 1 {
        lemma_spent_keys_contains(txs.drop_last(), i, a);
        assert(txs.drop_last()[i] == txs[i]);
    } else {
        assert(input_keys(txs.last()).contains(key_of(txs[i].inputs[a])));
    }
}

/// A pool whose validator admits only transactions that pass
/// `inputs_unique_unspent` against the outputs its pending transactions
/// spend never holds a double spend: admitting such a transaction keeps
/// every output spent at most once.
pub proof fn lemma_admit_keeps_single_spends(pending: Seq<TxView>, tx: TxView, utxo: Map<UtxoKey, TxOutputView>)
    requires
        no_double_spend(pending),
        inputs_unique_unspent(tx, utxo, spent_keys(pending)),
    ensures
        no_double_spend(pending.push(tx)),
{
    let s = pending.push(tx);
    let n = pending.len() as int;
    assert forall|i: int, j: int, a: int, b: int|
        0 <= i < s.len() && 0 <= j < s.len() && 0 <= a < s[i].inputs.len() && 0 <= b < s[j].inputs.len() && (i
            != j || a != b) implies #[trigger] key_of(s[i].inputs[a]) != #[trigger] key_of(s[j].inputs[b]) by {
        if i < n && j < n {
            assert(s[i] == pending[i] && s[j] == pending[j]);
        } else if i < n && j == n {
            assert(s[i] == pending[i]);
            lemma_spent_keys_contains(pending, i, a);
            assert(tx.inputs[b] == s[j].inputs[b]);
        } else if i == n && j < n {
            assert(s[j] == pending[j]);
            lemma_spent_keys_contains(pending, j, b);
            assert(tx.inputs[a] == s[i].inputs[a]);
        } else {
            assert(s[i] == tx && s[j] == tx);
            if a < b {
                assert(key_of(tx.inputs[a]) != key_of(tx.inputs[b]));
            } else {
                assert(key_of(tx.inputs[b]) != key_of(tx.inputs[a]));
            }
        }
    }
}

} // verus!
