//! Interfaces implemented by users of the library: a hash function and a
//! signature scheme.  Each states what an implementation must meet: the
//! result is a function of the arguments, named by the trait's spec
//! function.


use vstd::prelude::*;

verus! {

/// A hash function from bytes to 32-byte hashes.
pub trait Hasher {
    /// The hash this hasher gives `data`.
    spec fn spec_hash(&self, data: Seq<u8>) -> crate::common::types::Hash;

    /// Hashes `data`.
    fn hash(&self, data: &[u8]) -> (h: crate::common::types::Hash)
        ensures
            h == self.spec_hash(data@),
    ;
}

/// A signature scheme over byte strings.
pub trait Crypto {
    /// Whether `sig` is a signature of `msg` under public key `pk`.
    spec fn spec_verify(&self, pk: Seq<u8>, msg: Seq<u8>, sig: Seq<u8>) -> bool;

    /// The signature of `msg` with key `sk`.
    spec fn spec_sign(&self, sk: Seq<u8>, msg: Seq<u8>) -> Seq<u8>;

    /// Checks a signature.
    fn verify(&self, pk: &[u8], msg: &[u8], sig: &[u8]) -> (r: bool)
        ensures
            r == self.spec_verify(pk@, msg@, sig@),
    ;

    /// Signs a message.
    fn sign(&self, sk: &[u8], msg: &[u8]) -> (sig: Vec<u8>)
        ensures
            sig@ == self.spec_sign(sk@, msg@),
    ;
}

/// A signature that has a byte form.
pub trait Signature {
    /// The bytes of the signature.
    fn to_bytes(&self) -> Vec<u8>;
}

/// A private key that signs byte strings.
pub trait SigningKey {
    /// The signature of `msg`.
    fn sign(&self, msg: &[u8]) -> Vec<u8>;

    /// The bytes of the matching public key.
    fn verifying_key(&self) -> Vec<u8>;
}

/// A wallet that signs and checks with its keys and gives change
/// addresses.
pub trait Wallet {
    /// The signature of `message` under the key of `pubkey`.
    fn sign(&self, pubkey: &[u8], message: &[u8]) -> Vec<u8>;

    /// Whether `signature` signs `message` under `pubkey`.
    fn verify(&self, pubkey: &[u8], message: &[u8], signature: &[u8]) -> bool;

    /// An address to send change to.
    fn change_address(&self) -> Vec<u8>;
}

} // verus!
