//! secp256k1 keys and recoverable ECDSA signatures from the `libsecp256k1`
//! crate, behind trusted wrappers.  Keys and signatures travel through the
//! library as plain bytes: a secret key as its 32 big-endian bytes, a public
//! key as its 65-byte uncompressed serialization (tag `0x04`, then x and y), a
//! signature as the 64 bytes of r and s.

use vstd::prelude::*;

verus! {

/// The unsigned big-endian value of `bytes`.
pub open spec fn be_value(bytes: Seq<u8>) -> nat
    decreases bytes.len(),
{
    if bytes.len() == 0 {
        0
    } else {
        be_value(bytes.drop_last()) * 256 + bytes.last() as nat
    }
}

/// The order of the secp256k1 group.
pub open spec fn curve_order() -> nat {
    0xFFFFFFFFFFFFFFFFFFFFFFFFFFFFFFFEBAAEDCE6AF48A03BBFD25E8CD0364141nat
}

/// A 32-byte secret key that `SecretKey::parse` accepts: a non-zero scalar
/// below the group order.
pub open spec fn valid_secret(sk: Seq<u8>) -> bool {
    &&& sk.len() == 32
    &&& 0 < be_value(sk) < curve_order()
}

/// A 64-byte signature that `Signature::parse_standard` accepts: r and s
/// both below the group order.
pub open spec fn standard_signature(sig: Seq<u8>) -> bool {
    &&& sig.len() == 64
    &&& be_value(sig.subrange(0, 32)) < curve_order()
    &&& be_value(sig.subrange(32, 64)) < curve_order()
}

/// The uncompressed serialization of the public key of a valid secret key.
pub uninterp spec fn secp_public_key(secret: Seq<u8>) -> Seq<u8>;

/// What `PublicKey::parse` makes of a 65-byte encoding, serialized again.
pub uninterp spec fn secp_parse_full(encoded: Seq<u8>) -> Option<Seq<u8>>;

/// What `PublicKey::parse_compressed` makes of a 33-byte encoding,
/// serialized uncompressed.
pub uninterp spec fn secp_parse_compressed(encoded: Seq<u8>) -> Option<Seq<u8>>;

/// The public key that `recover` finds for a message hash, a standard
/// signature and a recovery id below 4, serialized uncompressed.
pub uninterp spec fn secp_recover(message: Seq<u8>, signature: Seq<u8>, recid: u8) -> Option<Seq<u8>>;

/// The signature and recovery id that `sign` makes of a message hash with a
/// valid secret key (RFC 6979 nonces, so a function of its arguments).
pub uninterp spec fn secp_sign(message: Seq<u8>, secret: Seq<u8>) -> (Seq<u8>, u8);

/// Calls `SecretKey::parse`.  Claims that it accepts exactly the valid
/// secret keys, and that its error reads "Invalid secret key".
#[verifier::external_body]
pub(crate) fn parse_secret_key(sk: &[u8]) -> (r: Result<(), String>)
    requires
        sk@.len() == 32,
    ensures
        r is Ok <==> valid_secret(sk@),
        r matches Err(e) ==> e@ == "Invalid secret key"@,
{
    let arr: &[u8; 32] = sk.try_into().unwrap();
    match libsecp256k1::SecretKey::parse(arr) {
        Ok(_) => Ok(()),
        Err(e) => Err(e.to_string()),
    }
}

/// Calls `SecretKey::random` with the thread-local generator of `rand`.
/// Claims only that the key it returns is valid.
#[verifier::external_body]
pub(crate) fn random_secret_key() -> (sk: Vec<u8>)
    ensures
        valid_secret(sk@),
{
    let mut rng = rand::thread_rng();
    libsecp256k1::SecretKey::random(&mut rng).serialize().to_vec()
}

/// Calls `PublicKey::from_secret_key` and serializes the key.  Claims that
/// the result is the named public key: 65 bytes with tag `0x04`, which
/// `PublicKey::parse` reads back unchanged.
#[verifier::external_body]
pub(crate) fn public_key_of(sk: &[u8]) -> (pk: Vec<u8>)
    requires
        valid_secret(sk@),
    ensures
        pk@ == secp_public_key(sk@),
        pk@.len() == 65,
        pk@[0] == 4,
        secp_parse_full(pk@) == Some(pk@),
{
    let arr: &[u8; 32] = sk.try_into().unwrap();
    let secret = libsecp256k1::SecretKey::parse(arr).unwrap();
    libsecp256k1::PublicKey::from_secret_key(&secret).serialize().to_vec()
}

/// Calls `PublicKey::parse` on a 65-byte encoding and serializes the key
/// it finds.  Claims that the result is the named one, that a key read back
/// is tag `0x04` followed by the input's coordinates, and that the error
/// reads "Invalid public key".
#[verifier::external_body]
pub(crate) fn parse_full_public_key(p: &[u8]) -> (r: Result<Vec<u8>, String>)
    requires
        p@.len() == 65,
    ensures
        match r {
            Ok(k) => secp_parse_full(p@) == Some(k@) && k@ == seq![4u8] + p@.subrange(1, 65),
            Err(e) => secp_parse_full(p@) is None && e@ == "Invalid public key"@,
        },
{
    let arr: &[u8; 65] = p.try_into().unwrap();
    match libsecp256k1::PublicKey::parse(arr) {
        Ok(k) => Ok(k.serialize().to_vec()),
        Err(e) => Err(e.to_string()),
    }
}

/// Calls `PublicKey::parse_compressed` on a 33-byte encoding and
/// serializes the key uncompressed.  Claims that the result is the named
/// one, 65 bytes with tag `0x04`, and that the error reads "Invalid public
/// key".
#[verifier::external_body]
pub(crate) fn parse_compressed_public_key(p: &[u8]) -> (r: Result<Vec<u8>, String>)
    requires
        p@.len() == 33,
    ensures
        match r {
            Ok(k) => secp_parse_compressed(p@) == Some(k@) && k@.len() == 65 && k@[0] == 4,
            Err(e) => secp_parse_compressed(p@) is None && e@ == "Invalid public key"@,
        },
{
    let arr: &[u8; 33] = p.try_into().unwrap();
    match libsecp256k1::PublicKey::parse_compressed(arr) {
        Ok(k) => Ok(k.serialize().to_vec()),
        Err(e) => Err(e.to_string()),
    }
}

/// Calls `Signature::parse_standard` and serializes the signature.  Claims
/// that it accepts exactly the standard signatures, returning the same 64
/// bytes, and that the error reads "Invalid signature".
#[verifier::external_body]
pub(crate) fn parse_standard_signature(sig: &[u8]) -> (r: Result<Vec<u8>, String>)
    requires
        sig@.len() == 64,
    ensures
        match r {
            Ok(s) => standard_signature(sig@) && s@ == sig@,
            Err(e) => !standard_signature(sig@) && e@ == "Invalid signature"@,
        },
{
    let arr: &[u8; 64] = sig.try_into().unwrap();
    match libsecp256k1::Signature::parse_standard(arr) {
        Ok(s) => Ok(s.serialize().to_vec()),
        Err(e) => Err(e.to_string()),
    }
}

/// Calls `RecoveryId::parse`.  Claims that it accepts exactly the bytes
/// below 4, returning the same byte, and that the error reads "Invalid
/// recovery ID".
#[verifier::external_body]
pub(crate) fn parse_recovery_id(b: u8) -> (r: Result<u8, String>)
    ensures
        match r {
            Ok(id) => b < 4 && id == b,
            Err(e) => b >= 4 && e@ == "Invalid recovery ID"@,
        },
{
    match libsecp256k1::RecoveryId::parse(b) {
        Ok(id) => Ok(id.serialize()),
        Err(e) => Err(e.to_string()),
    }
}

/// Calls `recover` on a 32-byte message hash, a standard signature and a
/// recovery id below 4, and serializes the key.  Claims that the result is
/// the named one, 65 bytes with tag `0x04`, and that the error reads
/// "Invalid signature".
#[verifier::external_body]
pub(crate) fn recover_public_key(message: &[u8], sig: &[u8], recid: u8) -> (r: Result<Vec<u8>, String>)
    requires
        message@.len() == 32,
        standard_signature(sig@),
        recid < 4,
    ensures
        match r {
            Ok(k) => secp_recover(message@, sig@, recid) == Some(k@) && k@.len() == 65 && k@[0] == 4,
            Err(e) => secp_recover(message@, sig@, recid) is None && e@ == "Invalid signature"@,
        },
{
    let m: &[u8; 32] = message.try_into().unwrap();
    let s: &[u8; 64] = sig.try_into().unwrap();
    let msg = libsecp256k1::Message::parse(m);
    let signature = libsecp256k1::Signature::parse_overflowing(s);
    let id = libsecp256k1::RecoveryId::parse(recid).unwrap();
    match libsecp256k1::recover(&msg, &signature, &id) {
        Ok(k) => Ok(k.serialize().to_vec()),
        Err(e) => Err(e.to_string()),
    }
}

/// Calls `sign` on a 32-byte message hash with a valid secret key and
/// serializes the signature and recovery id.  Claims that the result is the
/// named one, that the signature is standard, that the recovery id is below
/// 4, and that `recover` finds the signer's public key from them.
#[verifier::external_body]
pub(crate) fn sign_hash(message: &[u8], sk: &[u8]) -> (r: (Vec<u8>, u8))
    requires
        message@.len() == 32,
        valid_secret(sk@),
    ensures
        secp_sign(message@, sk@) == (r.0@, r.1),
        standard_signature(r.0@),
        r.1 < 4,
        secp_recover(message@, r.0@, r.1) == Some(secp_public_key(sk@)),
{
    let m: &[u8; 32] = message.try_into().unwrap();
    let k: &[u8; 32] = sk.try_into().unwrap();
    let secret = libsecp256k1::SecretKey::parse(k).unwrap();
    let (sig, id) = libsecp256k1::sign(&libsecp256k1::Message::parse(m), &secret);
    (sig.serialize().to_vec(), id.serialize())
}

} // verus!
