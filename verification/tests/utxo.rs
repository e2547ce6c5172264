use blockchain_p2p::common::ports::{Crypto, Hasher};
use blockchain_p2p::common::types::{Block, BlockHeader, Tx, TxInput, TxOutput};
use blockchain_p2p::mempool::types::mempool::{AcceptAll, KeySet, Mempool, TxValidator, UtxoKey, UtxoSet};
use sha2::Digest;

struct Sha;

impl Hasher for Sha {
    fn spec_hash(&self, _data: vstd::seq::Seq<u8>) -> blockchain_p2p::common::types::Hash {
        blockchain_p2p::common::types::Hash([0; 32])
    }

    fn hash(&self, data: &[u8]) -> blockchain_p2p::common::types::Hash {
        let d = sha2::Sha256::digest(data);
        let mut a = [0u8; 32];
        a.copy_from_slice(&d);
        blockchain_p2p::common::types::Hash(a)
    }
}

/// A toy scheme: the signature is the key followed by the first 4 bytes
/// of the message.
struct Toy;

impl Crypto for Toy {
    fn spec_verify(&self, _pk: vstd::seq::Seq<u8>, _msg: vstd::seq::Seq<u8>, _sig: vstd::seq::Seq<u8>) -> bool {
        false
    }

    fn spec_sign(&self, _sk: vstd::seq::Seq<u8>, _msg: vstd::seq::Seq<u8>) -> vstd::seq::Seq<u8> {
        vstd::seq::Seq::empty()
    }

    fn verify(&self, pk: &[u8], msg: &[u8], sig: &[u8]) -> bool {
        let mut expected = pk.to_vec();
        expected.extend_from_slice(&msg[..4]);
        sig == expected.as_slice()
    }

    fn sign(&self, sk: &[u8], msg: &[u8]) -> Vec<u8> {
        let mut s = sk.to_vec();
        s.extend_from_slice(&msg[..4]);
        s
    }
}

struct PositiveOnly;

impl TxValidator for PositiveOnly {
    fn spec_validate(
        &self,
        _tx: blockchain_p2p::common::types::TxView,
        _utxo: vstd::map::Map<UtxoKey, blockchain_p2p::common::types::TxOutputView>,
        _spent: vstd::set::Set<UtxoKey>,
    ) -> bool {
        false
    }

    fn validate(&self, tx: &Tx, _utxo_set: &UtxoSet, spent: &KeySet) -> bool {
        !tx.outputs.is_empty()
            && tx.inputs.iter().all(|i| !spent.contains(&UtxoKey(i.prev_tx, i.output_index)))
    }
}

fn h(b: u8) -> blockchain_p2p::common::types::Hash {
    blockchain_p2p::common::types::Hash([b; 32])
}

fn input(prev: u8, index: usize, pubkey: &[u8]) -> TxInput {
    TxInput { prev_tx: h(prev), output_index: index, signature: vec![], pubkey: pubkey.to_vec() }
}

fn output(amount: u64, to: &[u8]) -> TxOutput {
    TxOutput { amount, recipient: to.to_vec() }
}

fn utxos() -> UtxoSet {
    let mut u = UtxoSet::new();
    u.insert(UtxoKey(h(1), 0), output(10, b"alice"));
    u.insert(UtxoKey(h(1), 1), output(7, b"bob"));
    u
}

fn clone_tx(t: &Tx) -> Tx {
    t.clone()
}

#[test]
fn tx_bytes_and_hash_hex() {
    let t = Tx::new(vec![input(1, 2, b"k")], vec![output(3, b"r")]);
    let mut expected = vec![1u8; 32];
    expected.extend_from_slice(&2u64.to_be_bytes());
    expected.extend_from_slice(b"r");
    expected.extend_from_slice(&3u64.to_be_bytes());
    assert_eq!(t.to_bytes(), expected);
    assert_eq!(h(0xab).to_hex(), "ab".repeat(32));
    assert_eq!(blockchain_p2p::common::types::Hash::zero().to_hex(), "00".repeat(32));
}

#[test]
fn signing_keeps_the_hash() {
    let t = Tx::new(vec![input(1, 0, b"alice")], vec![output(3, b"r")]);
    let before = t.hash(&Sha);
    let signed = clone_tx(&t).sign(&Sha, &Toy);
    assert_eq!(signed.hash(&Sha), before);
    let mut sig = b"alice".to_vec();
    sig.extend_from_slice(&before.0[..4]);
    assert_eq!(signed.inputs[0].signature, sig);
    assert_eq!(signed.inputs[0].pubkey, b"alice".to_vec());
}

#[test]
fn header_hash_and_merkle_root() {
    let header = BlockHeader { version: 1, prev_hash: h(2), nonce: 3, merkle_root: h(4), timestamp: 5 };
    let mut data = 1u32.to_be_bytes().to_vec();
    data.extend_from_slice(&[2u8; 32]);
    data.extend_from_slice(&3u64.to_be_bytes());
    data.extend_from_slice(&[4u8; 32]);
    data.extend_from_slice(&5u64.to_be_bytes());
    assert_eq!(header.hash(&Sha), Sha.hash(&data));

    assert_eq!(Block::generate_merkle_root(&Sha, &[]), Sha.hash(&[]));
    let a = Tx::new(vec![input(1, 0, b"x")], vec![]);
    let b = Tx::new(vec![input(2, 0, b"x")], vec![]);
    let c = Tx::new(vec![input(3, 0, b"x")], vec![]);
    let (ha, hb, hc) = (a.hash(&Sha), b.hash(&Sha), c.hash(&Sha));
    assert_eq!(Block::generate_merkle_root(&Sha, &[clone_tx(&a)]), ha);
    let pair = |x: blockchain_p2p::common::types::Hash, y: blockchain_p2p::common::types::Hash| {
        let mut d = x.0.to_vec();
        d.extend_from_slice(&y.0);
        Sha.hash(&d)
    };
    assert_eq!(Block::generate_merkle_root(&Sha, &[clone_tx(&a), clone_tx(&b)]), pair(ha, hb));
    let three = Block::generate_merkle_root(&Sha, &[clone_tx(&a), clone_tx(&b), clone_tx(&c)]);
    assert_eq!(three, pair(pair(ha, hb), pair(hc, hc)));

    let blk = Block::new_at(1, h(9), 0, vec![a, b, c], &Sha, 77);
    assert_eq!(blk.header.merkle_root, three);
    assert_eq!(blk.header.timestamp, 77);
    assert_eq!(blk.hash(&Sha), blk.header.hash(&Sha));
    let other = Block::new_with_merkle_root(1, h(9), 0, vec![], h(5));
    assert_eq!(other.header.merkle_root, h(5));
}

#[test]
fn validity_rules_of_the_utxo_pool() {
    let u = utxos();
    let pool = Mempool::new(Box::new(AcceptAll));
    let good = Tx::new(vec![input(1, 0, b"alice")], vec![output(6, b"bob"), output(4, b"alice")]).sign(&Sha, &Toy);
    assert!(pool.is_tx_valid(&good, &u, &Toy, &Sha));

    let no_inputs = Tx::new(vec![], vec![output(1, b"bob")]);
    assert!(!pool.is_tx_valid(&no_inputs, &u, &Toy, &Sha));
    let zero = Tx::new(vec![input(1, 0, b"alice")], vec![output(0, b"bob")]).sign(&Sha, &Toy);
    assert!(!pool.is_tx_valid(&zero, &u, &Toy, &Sha));
    let over = Tx::new(vec![input(1, 0, b"alice")], vec![output(11, b"bob")]).sign(&Sha, &Toy);
    assert!(!pool.is_tx_valid(&over, &u, &Toy, &Sha));
    let twice = Tx::new(vec![input(1, 0, b"alice"), input(1, 0, b"alice")], vec![output(1, b"bob")]).sign(&Sha, &Toy);
    assert!(!pool.is_tx_valid(&twice, &u, &Toy, &Sha));
    let unknown = Tx::new(vec![input(9, 0, b"alice")], vec![output(1, b"bob")]).sign(&Sha, &Toy);
    assert!(!pool.is_tx_valid(&unknown, &u, &Toy, &Sha));
    let wrong_key = Tx::new(vec![input(1, 0, b"bob")], vec![output(1, b"bob")]).sign(&Sha, &Toy);
    assert!(!pool.is_tx_valid(&wrong_key, &u, &Toy, &Sha));
    let unsigned = Tx::new(vec![input(1, 0, b"alice")], vec![output(1, b"bob")]);
    assert!(!pool.is_tx_valid(&unsigned, &u, &Toy, &Sha));
    let both = Tx::new(vec![input(1, 0, b"alice"), input(1, 1, b"bob")], vec![output(17, b"carol")]).sign(&Sha, &Toy);
    assert!(pool.is_tx_valid(&both, &u, &Toy, &Sha));
    let overflow = Tx::new(vec![input(1, 0, b"alice")], vec![output(u64::MAX, b"b"), output(1, b"c")]).sign(&Sha, &Toy);
    assert!(!pool.is_tx_valid(&overflow, &u, &Toy, &Sha));
}

#[test]
fn pending_spends_block_a_second_spend() {
    let u = utxos();
    let mut pool = Mempool::new(Box::new(AcceptAll));
    let good = Tx::new(vec![input(1, 0, b"alice")], vec![output(6, b"bob")]).sign(&Sha, &Toy);
    assert!(pool.is_tx_valid(&good, &u, &Toy, &Sha));
    pool.push(clone_tx(&good), &u);
    assert!(!pool.is_tx_valid(&good, &u, &Toy, &Sha));
    assert_eq!(pool.peek_first_n(5).len(), 1);

    let block = Block::new_at(1, h(0), 0, vec![clone_tx(&good)], &Sha, 1);
    pool.remove_included_txs(&block, &Sha);
    assert!(pool.peek_first_n(5).is_empty());
    assert!(pool.is_tx_valid(&good, &u, &Toy, &Sha));
}

#[test]
fn validator_decides_and_order_is_kept() {
    let u = utxos();
    let mut pool: Mempool<dyn TxValidator> = Mempool::new(Box::new(PositiveOnly));
    let a = Tx::new(vec![input(1, 0, b"alice")], vec![output(1, b"x")]);
    let b = Tx::new(vec![input(1, 0, b"alice")], vec![output(2, b"x")]);
    let c = Tx::new(vec![input(1, 1, b"bob")], vec![output(3, b"x")]);
    let d = Tx::new(vec![input(2, 0, b"bob")], vec![]);
    pool.push_n(vec![clone_tx(&a), b, clone_tx(&c), d], &u);
    let first = pool.peek_first_n(10);
    assert_eq!(first.len(), 2);
    assert_eq!(first[0].outputs[0].amount, 1);
    assert_eq!(first[1].outputs[0].amount, 3);

    let taken = pool.get_first_n(1);
    assert_eq!(taken.len(), 1);
    assert_eq!(taken[0].outputs[0].amount, 1);
    pool.push(clone_tx(&a), &u);
    let now = pool.peek_first_n(10);
    assert_eq!(now.iter().map(|t| t.outputs[0].amount).collect::<Vec<_>>(), vec![3, 1]);
    pool.push(clone_tx(&c), &u);
    assert_eq!(pool.peek_first_n(10).len(), 2);

    let block = Block::new_at(1, h(0), 0, vec![c], &Sha, 1);
    pool.remove_included_txs(&block, &Sha);
    assert_eq!(pool.peek_first_n(10).len(), 1);
    assert_eq!(pool.get_first_n(10).len(), 1);
    assert!(pool.get_first_n(10).is_empty());
}

#[test]
fn utxo_set_and_key_set() {
    let mut u = UtxoSet::new();
    assert!(!u.contains_key(&UtxoKey(h(1), 0)));
    u.insert(UtxoKey(h(1), 0), output(1, b"a"));
    u.insert(UtxoKey(h(1), 0), output(2, b"b"));
    assert_eq!(u.get(&UtxoKey(h(1), 0)).unwrap().amount, 2);
    assert!(u.get(&UtxoKey(h(1), 1)).is_none());
    let mut k = KeySet::new();
    assert!(k.insert(UtxoKey(h(3), 1)));
    assert!(!k.insert(UtxoKey(h(3), 1)));
    assert!(k.contains(&UtxoKey(h(3), 1)));
    assert!(!k.contains(&UtxoKey(h(3), 2)));
    assert!(UtxoKey(h(3), 1).same(&UtxoKey(h(3), 1)));
}
