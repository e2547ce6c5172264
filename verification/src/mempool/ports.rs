//! The signature scheme a signed transaction of the mempool is made with:
//! implemented by users of the library.

use vstd::prelude::*;

verus! {

/// A signature that has a byte form.
pub trait Signature {
    /// The bytes of the signature.
    fn to_bytes(&self) -> Vec<u8>;
}

/// A public key that checks signatures.
pub trait VerifyingKey {
    type Signature: Signature;

    /// The key's bytes.
    spec fn key_bytes(&self) -> Seq<u8>;

    /// Whether `signature` signs `message` under this key.
    fn verify(&self, message: &[u8], signature: &Self::Signature) -> bool;

    /// The key's bytes.
    fn as_bytes(&self) -> (b: &[u8])
        ensures
            b@ == self.key_bytes(),
    ;
}

/// A private key that signs.
pub trait SigningKey {
    type Signature;
    type VerifyingKey: VerifyingKey<Signature = Self::Signature>;

    /// The signature of `msg` under this key.
    spec fn signature_of(&self, msg: Seq<u8>) -> Self::Signature;

    /// Signs `msg`.
    fn sign(&self, msg: &[u8]) -> (s: Self::Signature)
        ensures
            s == self.signature_of(msg@),
    ;

    /// The matching public key.
    fn verifying_key(&self) -> Self::VerifyingKey;
}

} // verus!
