use blockchain_p2p::block::Block;
use sha2::Digest;
use blockchain_p2p::mempool::ports::{Signature, SigningKey, VerifyingKey};
use blockchain_p2p::mempool::types::tx::Tx;

#[test]
fn plain_block_hash_formula_and_update() {
    let mut b = Block::new_at(3, vec!["a\"b".to_string(), "c".to_string()], "prev".to_string(), 12);
    let text = format!("{}{}{:?}{}{}", 3, 12u128, vec!["a\"b".to_string(), "c".to_string()], "prev", 0);
    assert_eq!(b.hash, hex::encode(sha2::Sha256::digest(text.as_bytes())));
    assert_eq!(b.nonce, 0);
    b.nonce = 5;
    let stale = b.hash.clone();
    b.update_hash();
    assert_ne!(b.hash, stale);
    assert_eq!(b.hash, b.calculate_hash());
    let again = b.hash.clone();
    b.update_hash();
    assert_eq!(b.hash, again);
    let now = Block::new(0, vec![], "".to_string());
    assert!(now.timestamp > 0);
}

#[derive(Clone)]
struct Key(Vec<u8>);

struct Sig(Vec<u8>);

impl Signature for Sig {
    fn to_bytes(&self) -> Vec<u8> {
        self.0.clone()
    }
}

impl VerifyingKey for Key {
    type Signature = Sig;

    fn key_bytes(&self) -> vstd::seq::Seq<u8> {
        vstd::seq::Seq::empty()
    }

    fn verify(&self, message: &[u8], signature: &Sig) -> bool {
        let mut e = self.0.clone();
        e.extend_from_slice(message);
        signature.0 == e
    }

    fn as_bytes(&self) -> &[u8] {
        &self.0
    }
}

struct Secret(Vec<u8>);

impl SigningKey for Secret {
    type Signature = Sig;
    type VerifyingKey = Key;

    fn signature_of(&self, _msg: vstd::seq::Seq<u8>) -> Sig {
        Sig(vec![])
    }

    fn sign(&self, msg: &[u8]) -> Sig {
        let mut e = self.0.clone();
        e.extend_from_slice(msg);
        Sig(e)
    }

    fn verifying_key(&self) -> Key {
        Key(self.0.clone())
    }
}

#[test]
fn signed_transfer_signs_the_hash_of_input_and_recipient() {
    let sk = Secret(b"alice".to_vec());
    let from = sk.verifying_key();
    let to = Key(b"bob".to_vec());
    let _tx = Tx::new_signed(blockchain_p2p::mempool::types::tx::Hash([7u8; 32]), from.clone(), to.clone(), &sk);
    let mut data = vec![7u8; 32];
    data.extend_from_slice(b"bob");
    let msg = sha2::Sha256::digest(&data).to_vec();
    let expected = sk.sign(&msg);
    assert!(from.verify(&msg, &expected));
    assert_eq!(expected.to_bytes().len(), 5 + 32);
}
