//! A transfer between two public keys, signed over the hash of the
//! transaction it spends and the recipient.

use crate::digest::{sha256, sha256_digest};
use crate::mempool::ports::{SigningKey, VerifyingKey};
use vstd::prelude::*;

verus! {

/// A 32-byte hash.
#[derive(Clone, Copy, Debug, PartialEq, Eq)]
pub struct Hash(pub [u8; 32]);

/// A signed transfer of the output of `prev_tx_hash` from `from` to `to`.
pub struct Tx<VK: VerifyingKey + Clone> {
    prev_tx_hash: Hash,
    to: VK,
    from: VK,
    signature: VK::Signature,
}

/// The message a transfer is signed over: the SHA-256 of the spent
/// transaction's hash followed by the recipient key's bytes.
pub open spec fn signed_message(prev_tx_hash: Seq<u8>, to: Seq<u8>) -> Seq<u8> {
    sha256(prev_tx_hash + to)
}

impl<VK: VerifyingKey + Clone> Tx<VK> {
    /// The hash of the spent transaction.
    pub closed spec fn spent(&self) -> Hash {
        self.prev_tx_hash
    }

    /// The sender.
    pub closed spec fn sender(&self) -> VK {
        self.from
    }

    /// The recipient.
    pub closed spec fn recipient(&self) -> VK {
        self.to
    }

    /// The signature.
    pub closed spec fn sig(&self) -> VK::Signature {
        self.signature
    }

    /// Makes a transfer signed by `sk` over the hash of `prev_tx_hash`
    /// followed by `to`'s bytes.
    pub fn new_signed<SK>(prev_tx_hash: Hash, from: VK, to: VK, sk: &SK) -> (t: Self)
        where
            SK: SigningKey<Signature = VK::Signature, VerifyingKey = VK>,
        ensures
            t.spent() == prev_tx_hash,
            t.sender() == from,
            t.recipient() == to,
            t.sig() == sk.signature_of(signed_message(prev_tx_hash.0@, to.key_bytes())),
    {
        let msg = Self::msg(&prev_tx_hash, &to);
        let signature = sk.sign(&msg.0);
        Tx { prev_tx_hash, to, from, signature }
    }

    fn msg(prev_tx_hash: &Hash, to: &VK) -> (h: Hash)
        ensures
            h.0@ == signed_message(prev_tx_hash.0@, to.key_bytes()),
    {
        let mut data: Vec<u8> = Vec::new();
        let mut i: usize = 0;
        while i < 32
            invariant
                0 <= i <= 32,
                data@ == prev_tx_hash.0@.take(i as int),
            decreases 32 - i,
        {
            data.push(prev_tx_hash.0[i]);
            assert(data@ =~= prev_tx_hash.0@.take(i + 1));
            i = i + 1;
        }
        let key = to.as_bytes();
        let mut k: usize = 0;
        while k < key.len()
            invariant
                0 <= k <= key@.len(),
                data@ == prev_tx_hash.0@ + key@.take(k as int),
            decreases key@.len() - k,
        {
            data.push(key[k]);
            assert(data@ =~= prev_tx_hash.0@ + key@.take(k + 1));
            k = k + 1;
        }
        assert(key@.take(key@.len() as int) =~= key@);
        let digest = sha256_digest(data.as_slice());
        let mut out = [0u8; 32];
        let mut j: usize = 0;
        while j < 32
            invariant
                0 <= j <= 32,
                digest@.len() == 32,
                forall|m: int| 0 <= m < j ==> out@[m] == digest@[m],
            decreases 32 - j,
        {
            out[j] = digest[j];
            j = j + 1;
        }
        assert(out@ =~= digest@);
        Hash(out)
    }
}

} // verus!
