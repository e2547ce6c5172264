//! Hashes, UTXO transactions and blocks with a Merkle root.

use crate::common::ports::{Crypto, Hasher};
use crate::digest::{hex_encode, hex_lower};
use vstd::prelude::*;

verus! {

/// A 32-byte hash.
#[derive(Clone, Copy, Debug, PartialEq, Eq, Hash)]
pub struct Hash(pub [u8; 32]);

impl Hash {
    /// The all-zero hash.
    pub fn zero() -> (h: Hash)
        ensures
            h.0@ == Seq::new(32, |i: int| 0u8),
    {
        let h = Hash([0u8; 32]);
        assert(h.0@ =~= Seq::new(32, |i: int| 0u8));
        h
    }

    /// Whether the two hashes are the same bytes.
    pub fn equals(&self, other: &Hash) -> (r: bool)
        ensures
            r == (*self == *other),
    {
        let mut i: usize = 0;
        while i < 32
            invariant
                0 <= i <= 32,
                forall|j: int| 0 <= j < i ==> self.0@[j] == other.0@[j],
            decreases 32 - i,
        {
            if self.0[i] != other.0[i] {
                assert(self.0@[i as int] != other.0@[i as int]);
                return false;
            }
            i = i + 1;
        }
        assert(self.0@ =~= other.0@);
        assert(self.0 == other.0);
        true
    }

    /// The lower-case hex of the hash, as its `Display` prints it.
    pub fn to_hex(&self) -> (s: String)
        ensures
            s@ == hex_lower(self.0@),
    {
        hex_encode(self.0.as_slice())
    }
}

/// An output: an amount paid to a recipient.
pub struct TxOutput {
    pub amount: u64,
    pub recipient: Vec<u8>,
}

/// An input: the output it spends (transaction and index), with the
/// signature and public key that unlock it.
pub struct TxInput {
    pub prev_tx: Hash,
    pub output_index: usize,
    pub signature: Vec<u8>,
    pub pubkey: Vec<u8>,
}

/// A transaction spending inputs into outputs.
pub struct Tx {
    pub inputs: Vec<TxInput>,
    pub outputs: Vec<TxOutput>,
}

/// An output as a value.
pub struct TxOutputView {
    pub amount: u64,
    pub recipient: Seq<u8>,
}

/// An input as a value.
pub struct TxInputView {
    pub prev_tx: Hash,
    pub output_index: usize,
    pub signature: Seq<u8>,
    pub pubkey: Seq<u8>,
}

/// A transaction as a value.
pub struct TxView {
    pub inputs: Seq<TxInputView>,
    pub outputs: Seq<TxOutputView>,
}

impl View for TxOutput {
    type V = TxOutputView;

    open spec fn view(&self) -> TxOutputView {
        TxOutputView { amount: self.amount, recipient: self.recipient@ }
    }
}

impl View for TxInput {
    type V = TxInputView;

    open spec fn view(&self) -> TxInputView {
        TxInputView {
            prev_tx: self.prev_tx,
            output_index: self.output_index,
            signature: self.signature@,
            pubkey: self.pubkey@,
        }
    }
}

/// The views of a list of inputs.
pub open spec fn inputs_view(ins: Seq<TxInput>) -> Seq<TxInputView> {
    ins.map_values(|i: TxInput| i@)
}

/// The views of a list of outputs.
pub open spec fn outputs_view(outs: Seq<TxOutput>) -> Seq<TxOutputView> {
    outs.map_values(|o: TxOutput| o@)
}

impl View for Tx {
    type V = TxView;

    open spec fn view(&self) -> TxView {
        TxView { inputs: inputs_view(self.inputs@), outputs: outputs_view(self.outputs@) }
    }
}

/// The views of a list of transactions.
pub open spec fn txs_view(txs: Seq<Tx>) -> Seq<TxView> {
    txs.map_values(|t: Tx| t@)
}

/// The big-endian bytes of `x`, `n` of them.
pub open spec fn be_bytes(x: nat, n: nat) -> Seq<u8>
    decreases n,
{
    if n == 0 {
        Seq::empty()
    } else {
        be_bytes(x / 256, (n - 1) as nat).push((x % 256) as u8)
    }
}

/// Appends the `n` big-endian bytes of `x`.
pub fn push_be_bytes(out: &mut Vec<u8>, x: u64, n: usize)
    requires
        n <= 8,
    ensures
        final(out)@ == old(out)@ + be_bytes(x as nat, n as nat),
    decreases n,
{
    if n > 0 {
        push_be_bytes(out, x / 256, n - 1);
        out.push((x % 256) as u8);
        assert(final(out)@ =~= old(out)@ + be_bytes(x as nat, n as nat));
    }
}

/// The bytes of an input that a transaction's bytes hold: the spent
/// transaction's hash, then the output index as 8 big-endian bytes.
pub open spec fn input_bytes(i: TxInputView) -> Seq<u8> {
    i.prev_tx.0@ + be_bytes(i.output_index as nat, 8)
}

/// The bytes of an output: recipient, then amount as 8 big-endian bytes.
pub open spec fn output_bytes(o: TxOutputView) -> Seq<u8> {
    o.recipient + be_bytes(o.amount as nat, 8)
}

/// The concatenated bytes of a list of inputs.
pub open spec fn inputs_bytes(ins: Seq<TxInputView>) -> Seq<u8>
    decreases ins.len(),
{
    if ins.len() == 0 {
        Seq::empty()
    } else {
        inputs_bytes(ins.drop_last()) + input_bytes(ins.last())
    }
}

/// The concatenated bytes of a list of outputs.
pub open spec fn outputs_bytes(outs: Seq<TxOutputView>) -> Seq<u8>
    decreases outs.len(),
{
    if outs.len() == 0 {
        Seq::empty()
    } else {
        outputs_bytes(outs.drop_last()) + output_bytes(outs.last())
    }
}

/// The bytes a transaction is hashed over: its inputs' bytes, then its
/// outputs' bytes (signatures and public keys left out).
pub open spec fn tx_bytes(tx: TxView) -> Seq<u8> {
    inputs_bytes(tx.inputs) + outputs_bytes(tx.outputs)
}

fn push_slice(out: &mut Vec<u8>, s: &[u8])
    ensures
        final(out)@ == old(out)@ + s@,
{
    let mut i: usize = 0;
    while i < s.len()
        invariant
            0 <= i <= s@.len(),
            out@ == old(out)@ + s@.take(i as int),
        decreases s@.len() - i,
    {
        out.push(s[i]);
        assert(out@ =~= old(out)@ + s@.take(i + 1));
        i = i + 1;
    }
    assert(s@.take(s@.len() as int) =~= s@);
}

impl Clone for TxOutput {
    fn clone(&self) -> (r: Self)
        ensures
            r@ == self@,
    {
        TxOutput { amount: self.amount, recipient: self.recipient.clone() }
    }
}

impl Clone for TxInput {
    fn clone(&self) -> (r: Self)
        ensures
            r@ == self@,
    {
        TxInput {
            prev_tx: self.prev_tx,
            output_index: self.output_index,
            signature: self.signature.clone(),
            pubkey: self.pubkey.clone(),
        }
    }
}

impl Clone for Tx {
    fn clone(&self) -> (r: Self)
        ensures
            r@ == self@,
    {
        let mut inputs: Vec<TxInput> = Vec::new();
        let mut i: usize = 0;
        while i < self.inputs.len()
            invariant
                0 <= i <= self.inputs@.len(),
                inputs@.len() == i,
                inputs_view(inputs@) == inputs_view(self.inputs@).take(i as int),
            decreases self.inputs@.len() - i,
        {
            let c = self.inputs[i].clone();
            let ghost prev = inputs@;
            inputs.push(c);
            assert forall|k: int| 0 <= k < i + 1 implies #[trigger] inputs_view(inputs@)[k] == inputs_view(
                self.inputs@,
            )[k] by {
                if k < i {
                    assert(inputs@[k] == prev[k]);
                    assert(inputs_view(prev)[k] == inputs_view(self.inputs@).take(i as int)[k]);
                }
            }
            assert(inputs_view(inputs@) =~= inputs_view(self.inputs@).take(i + 1));
            i = i + 1;
        }
        let mut outputs: Vec<TxOutput> = Vec::new();
        let mut j: usize = 0;
        while j < self.outputs.len()
            invariant
                0 <= j <= self.outputs@.len(),
                outputs@.len() == j,
                outputs_view(outputs@) == outputs_view(self.outputs@).take(j as int),
            decreases self.outputs@.len() - j,
        {
            let c = self.outputs[j].clone();
            let ghost prev = outputs@;
            outputs.push(c);
            assert forall|k: int| 0 <= k < j + 1 implies #[trigger] outputs_view(outputs@)[k] == outputs_view(
                self.outputs@,
            )[k] by {
                if k < j {
                    assert(outputs@[k] == prev[k]);
                    assert(outputs_view(prev)[k] == outputs_view(self.outputs@).take(j as int)[k]);
                }
            }
            assert(outputs_view(outputs@) =~= outputs_view(self.outputs@).take(j + 1));
            j = j + 1;
        }
        assert(inputs_view(self.inputs@).take(self.inputs@.len() as int) =~= inputs_view(self.inputs@));
        assert(outputs_view(self.outputs@).take(self.outputs@.len() as int) =~= outputs_view(self.outputs@));
        Tx { inputs, outputs }
    }
}

impl Tx {
    /// Makes a transaction.
    pub fn new(inputs: Vec<TxInput>, outputs: Vec<TxOutput>) -> (tx: Tx)
        ensures
            tx.inputs@ == inputs@,
            tx.outputs@ == outputs@,
    {
        Tx { inputs, outputs }
    }

    /// The bytes the transaction is hashed over.
    pub fn to_bytes(&self) -> (b: Vec<u8>)
        ensures
            b@ == tx_bytes(self@),
    {
        let mut bytes: Vec<u8> = Vec::new();
        let ghost ins = self@.inputs;
        let ghost outs = self@.outputs;
        let mut i: usize = 0;
        while i < self.inputs.len()
            invariant
                0 <= i <= self.inputs@.len(),
                ins == inputs_view(self.inputs@),
                bytes@ == inputs_bytes(ins.take(i as int)),
            decreases self.inputs@.len() - i,
        {
            let input = &self.inputs[i];
            push_slice(&mut bytes, input.prev_tx.0.as_slice());
            push_be_bytes(&mut bytes, input.output_index as u64, 8);
            assert(ins.take(i + 1).drop_last() =~= ins.take(i as int));
            assert(bytes@ =~= inputs_bytes(ins.take(i + 1)));
            i = i + 1;
        }
        assert(ins.take(ins.len() as int) =~= ins);
        let ghost mid = bytes@;
        let mut j: usize = 0;
        while j < self.outputs.len()
            invariant
                0 <= j <= self.outputs@.len(),
                outs == outputs_view(self.outputs@),
                bytes@ == mid + outputs_bytes(outs.take(j as int)),
            decreases self.outputs@.len() - j,
        {
            let output = &self.outputs[j];
            push_slice(&mut bytes, output.recipient.as_slice());
            push_be_bytes(&mut bytes, output.amount, 8);
            assert(outs.take(j + 1).drop_last() =~= outs.take(j as int));
            assert(bytes@ =~= mid + outputs_bytes(outs.take(j + 1)));
            j = j + 1;
        }
        assert(outs.take(outs.len() as int) =~= outs);
        bytes
    }

    /// The hash of the transaction's bytes.
    pub fn hash<H: Hasher + ?Sized>(&self, hasher: &H) -> (h: Hash)
        ensures
            h == hasher.spec_hash(tx_bytes(self@)),
    {
        hasher.hash(self.to_bytes().as_slice())
    }
}


impl Tx {
    /// Signs every input with `crypto` over the transaction's hash, handing
    /// it the input's public key bytes as the signing key; outputs are
    /// kept.
    pub fn sign<H: Hasher + ?Sized, C: Crypto + ?Sized>(self, hasher: &H, crypto: &C) -> (signed: Tx)
        ensures
            signed@.outputs == self@.outputs,
            signed@.inputs.len() == self@.inputs.len(),
            forall|i: int| 0 <= i < self@.inputs.len() ==> #[trigger] signed@.inputs[i] == (TxInputView {
                signature: crypto.spec_sign(self@.inputs[i].pubkey, hasher.spec_hash(tx_bytes(self@)).0@),
                ..self@.inputs[i]
            }),
    {
        let msg = self.hash(hasher);
        let mut inputs: Vec<TxInput> = Vec::new();
        let mut i: usize = 0;
        while i < self.inputs.len()
            invariant
                0 <= i <= self.inputs@.len(),
                msg == hasher.spec_hash(tx_bytes(self@)),
                inputs@.len() == i,
                forall|k: int| 0 <= k < i ==> #[trigger] inputs@[k]@ == (TxInputView {
                    signature: crypto.spec_sign(self@.inputs[k].pubkey, msg.0@),
                    ..self@.inputs[k]
                }),
            decreases self.inputs@.len() - i,
        {
            let input = &self.inputs[i];
            let signature = crypto.sign(input.pubkey.as_slice(), msg.0.as_slice());
            inputs.push(TxInput {
                prev_tx: input.prev_tx,
                output_index: input.output_index,
                signature,
                pubkey: input.pubkey.clone(),
            });
            i = i + 1;
        }
        let signed = Tx { inputs, outputs: self.outputs };
        assert(signed@.inputs.len() == self@.inputs.len());
        signed
    }
}

proof fn lemma_inputs_bytes_same(a: Seq<TxInputView>, b: Seq<TxInputView>)
    requires
        a.len() == b.len(),
        forall|i: int| 0 <= i < a.len() ==> #[trigger] a[i].prev_tx == b[i].prev_tx && a[i].output_index
            == b[i].output_index,
    ensures
        inputs_bytes(a) == inputs_bytes(b),
    decreases a.len(),
{
    if a.len() > 0 {
        lemma_inputs_bytes_same(a.drop_last(), b.drop_last());
        assert(a.last() == a[a.len() - 1]);
        assert(b.last() == b[b.len() - 1]);
    }
}

/// Signing a transaction does not change the bytes it is hashed over, so
/// its hash, and the message its inputs sign, stay the same.
pub proof fn lemma_sign_keeps_bytes(unsigned: TxView, signed: TxView)
    requires
        signed.outputs == unsigned.outputs,
        signed.inputs.len() == unsigned.inputs.len(),
        forall|i: int| 0 <= i < unsigned.inputs.len() ==> #[trigger] signed.inputs[i].prev_tx == unsigned.inputs[i].prev_tx
            && signed.inputs[i].output_index == unsigned.inputs[i].output_index,
    ensures
        tx_bytes(signed) == tx_bytes(unsigned),
{
    lemma_inputs_bytes_same(signed.inputs, unsigned.inputs);
}

/// A block header: version, link, nonce, Merkle root and time.
#[derive(Clone, Copy)]
pub struct BlockHeader {
    pub version: u32,
    pub prev_hash: Hash,
    pub nonce: u64,
    pub merkle_root: Hash,
    pub timestamp: u64,
}

/// The bytes a header is hashed over: version (4 bytes), previous hash,
/// nonce (8 bytes), Merkle root, timestamp (8 bytes), big-endian.
pub open spec fn header_bytes(h: BlockHeader) -> Seq<u8> {
    be_bytes(h.version as nat, 4) + h.prev_hash.0@ + be_bytes(h.nonce as nat, 8) + h.merkle_root.0@
        + be_bytes(h.timestamp as nat, 8)
}

impl BlockHeader {
    /// The hash of the header.
    pub fn hash<H: Hasher + ?Sized>(&self, hasher: &H) -> (h: Hash)
        ensures
            h == hasher.spec_hash(header_bytes(*self)),
    {
        let mut data: Vec<u8> = Vec::new();
        push_be_bytes(&mut data, self.version as u64, 4);
        push_slice(&mut data, self.prev_hash.0.as_slice());
        push_be_bytes(&mut data, self.nonce, 8);
        push_slice(&mut data, self.merkle_root.0.as_slice());
        push_be_bytes(&mut data, self.timestamp, 8);
        assert(data@ =~= header_bytes(*self));
        hasher.hash(data.as_slice())
    }
}

/// A block: a header and its transactions.
pub struct Block {
    pub header: BlockHeader,
    pub txs: Vec<Tx>,
}

impl Clone for Block {
    fn clone(&self) -> (r: Self)
        ensures
            r.header == self.header,
            txs_view(r.txs@) == txs_view(self.txs@),
    {
        let mut txs: Vec<Tx> = Vec::new();
        let mut i: usize = 0;
        while i < self.txs.len()
            invariant
                0 <= i <= self.txs@.len(),
                txs@.len() == i,
                txs_view(txs@) == txs_view(self.txs@).take(i as int),
            decreases self.txs@.len() - i,
        {
            let c = self.txs[i].clone();
            let ghost prev = txs@;
            txs.push(c);
            assert forall|k: int| 0 <= k < i + 1 implies #[trigger] txs_view(txs@)[k] == txs_view(self.txs@)[k] by {
                if k < i {
                    assert(txs@[k] == prev[k]);
                    assert(txs_view(prev)[k] == txs_view(self.txs@).take(i as int)[k]);
                }
            }
            assert(txs_view(txs@) =~= txs_view(self.txs@).take(i + 1));
            i = i + 1;
        }
        assert(txs_view(self.txs@).take(self.txs@.len() as int) =~= txs_view(self.txs@));
        Block { header: self.header, txs }
    }
}

/// A Merkle level padded to even length by repeating its last hash.
pub open spec fn padded(level: Seq<Hash>) -> Seq<Hash> {
    if level.len() % 2 == 1 {
        level.push(level.last())
    } else {
        level
    }
}

/// The next Merkle level: the hash of each pair of the padded level.
pub open spec fn next_level<H: Hasher + ?Sized>(hasher: &H, level: Seq<Hash>) -> Seq<Hash> {
    let p = padded(level);
    Seq::new(p.len() / 2, |i: int| hasher.spec_hash(p[2 * i].0@ + p[2 * i + 1].0@))
}

/// The root of a non-empty Merkle level.
pub open spec fn merkle_fold<H: Hasher + ?Sized>(hasher: &H, level: Seq<Hash>) -> Hash
    decreases level.len(),
{
    if level.len() <= 1 {
        level[0]
    } else {
        merkle_fold(hasher, next_level(hasher, level))
    }
}

/// The leaves of a Merkle tree over transactions: their hashes.
pub open spec fn leaves<H: Hasher + ?Sized>(hasher: &H, txs: Seq<TxView>) -> Seq<Hash> {
    txs.map_values(|t: TxView| hasher.spec_hash(tx_bytes(t)))
}

/// The Merkle root of a list of transactions; the hash of no bytes when
/// there are none.
pub open spec fn merkle_root<H: Hasher + ?Sized>(hasher: &H, txs: Seq<TxView>) -> Hash {
    if txs.len() == 0 {
        hasher.spec_hash(Seq::empty())
    } else {
        merkle_fold(hasher, leaves(hasher, txs))
    }
}

/// Calls `SystemTime::now` and returns the seconds since the Unix epoch.
/// Nothing is claimed of the value.
#[verifier::external_body]
fn current_timestamp() -> u64 {
    std::time::SystemTime::now().duration_since(std::time::UNIX_EPOCH).unwrap().as_secs()
}

impl Block {
    /// Makes a block at `timestamp` whose header carries the Merkle root of
    /// `txs`.
    pub fn new_at<H: Hasher + ?Sized>(version: u32, prev_hash: Hash, nonce: u64, txs: Vec<Tx>, hasher: &H, timestamp: u64) -> (b: Block)
        ensures
            b.header.version == version,
            b.header.prev_hash == prev_hash,
            b.header.nonce == nonce,
            b.header.merkle_root == merkle_root(hasher, txs_view(txs@)),
            b.header.timestamp == timestamp,
            b.txs@ == txs@,
    {
        let merkle_root = Self::generate_merkle_root(hasher, txs.as_slice());
        Block { header: BlockHeader { version, prev_hash, nonce, merkle_root, timestamp }, txs }
    }

    /// Makes a block now whose header carries the Merkle root of `txs`.
    pub fn new<H: Hasher + ?Sized>(version: u32, prev_hash: Hash, nonce: u64, txs: Vec<Tx>, hasher: &H) -> (b: Block)
        ensures
            b.header.version == version,
            b.header.prev_hash == prev_hash,
            b.header.nonce == nonce,
            b.header.merkle_root == merkle_root(hasher, txs_view(txs@)),
            b.txs@ == txs@,
    {
        Self::new_at(version, prev_hash, nonce, txs, hasher, current_timestamp())
    }

    /// Makes a block now with the given Merkle root.
    pub fn new_with_merkle_root(version: u32, prev_hash: Hash, nonce: u64, txs: Vec<Tx>, merkle_root: Hash) -> (b: Block)
        ensures
            b.header.version == version,
            b.header.prev_hash == prev_hash,
            b.header.nonce == nonce,
            b.header.merkle_root == merkle_root,
            b.txs@ == txs@,
    {
        Block {
            header: BlockHeader { version, prev_hash, nonce, merkle_root, timestamp: current_timestamp() },
            txs,
        }
    }

    /// Computes the Merkle root of `txs`: hash each transaction, then hash
    /// pairs level by level, repeating the last hash of an odd level.
    pub fn generate_merkle_root<H: Hasher + ?Sized>(hasher: &H, txs: &[Tx]) -> (root: Hash)
        ensures
            root == merkle_root(hasher, txs_view(txs@)),
    {
        let ghost tv = txs_view(txs@);
        let mut hashes: Vec<Hash> = Vec::new();
        let mut i: usize = 0;
        while i < txs.len()
            invariant
                0 <= i <= txs@.len(),
                tv == txs_view(txs@),
                hashes@ == leaves(hasher, tv.take(i as int)),
            decreases txs@.len() - i,
        {
            hashes.push(txs[i].hash(hasher));
            assert(hashes@ =~= leaves(hasher, tv.take(i + 1)));
            i = i + 1;
        }
        assert(tv.take(tv.len() as int) =~= tv);
        if hashes.len() == 0 {
            let empty: Vec<u8> = Vec::new();
            assert(empty@ =~= Seq::<u8>::empty());
            return hasher.hash(empty.as_slice());
        }
        let ghost all = hashes@;
        while hashes.len() > 1
            invariant
                hashes@.len() >= 1,
                merkle_fold(hasher, hashes@) == merkle_fold(hasher, all),
            decreases hashes@.len(),
        {
            let ghost level = hashes@;
            if hashes.len() % 2 == 1 {
                let last = hashes[hashes.len() - 1];
                hashes.push(last);
            }
            assert(hashes@ == padded(level));
            let mut next: Vec<Hash> = Vec::new();
            let mut k: usize = 0;
            while k + 1 < hashes.len()
                invariant
                    hashes@ == padded(level),
                    hashes@.len() % 2 == 0,
                    k % 2 == 0,
                    k <= hashes@.len(),
                    next@.len() == k / 2,
                    forall|j: int| 0 <= j < k / 2 ==> #[trigger] next@[j] == hasher.spec_hash(
                        hashes@[2 * j].0@ + hashes@[2 * j + 1].0@,
                    ),
                decreases hashes@.len() - k,
            {
                let mut data: Vec<u8> = Vec::new();
                push_slice(&mut data, hashes[k].0.as_slice());
                push_slice(&mut data, hashes[k + 1].0.as_slice());
                next.push(hasher.hash(data.as_slice()));
                k = k + 2;
            }
            assert(next@ =~= next_level(hasher, level));
            hashes = next;
        }
        hashes[0]
    }

    /// The hash of the block's header.
    pub fn hash<H: Hasher + ?Sized>(&self, hasher: &H) -> (h: Hash)
        ensures
            h == hasher.spec_hash(header_bytes(self.header)),
    {
        self.header.hash(hasher)
    }
}

} // verus!
