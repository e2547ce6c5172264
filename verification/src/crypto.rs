//! Addresses, message signatures and block hashes of the node.

use crate::digest::{hex_decodable, hex_decode, hex_decoded, hex_encode, hex_error_text, hex_lower, keccak256, keccak256_digest, sha256, sha256_digest};
use crate::digest::lemma_hex_roundtrip;
use crate::secp::{secp_public_key, parse_compressed_public_key, parse_full_public_key, parse_recovery_id, parse_standard_signature, recover_public_key, secp_parse_compressed, secp_parse_full, secp_recover, secp_sign, sign_hash, standard_signature, valid_secret};
use crate::text::{concat, decimal, join, owned, result_view, strip_0x, strip_0x_prefix, u64_to_decimal, usize_to_decimal};
use crate::types::Transaction;
use vstd::prelude::*;
use vstd::slice::slice_subrange;
use vstd::string::StringSliceAdditionalSpecFns;
use vstd::utf8::encode_utf8;

verus! {

/// Calls `SystemTime::now` and returns the milliseconds since the Unix
/// epoch, truncated to 64 bits.  Nothing is claimed of the value.
#[verifier::external_body]
pub fn now_ms() -> u64 {
    std::time::SystemTime::now().duration_since(std::time::UNIX_EPOCH).unwrap().as_millis() as u64
}

/// The address of a 65-byte public key: `0x` and the hex of the last 20
/// bytes of the Keccak-256 of its 64 coordinate bytes.
pub open spec fn address_of_key(pk: Seq<u8>) -> Seq<char> {
    "0x"@ + hex_lower(keccak256(pk.subrange(1, 65)).subrange(12, 32))
}

/// Derives the address of a public key given as its 65-byte uncompressed
/// serialization.
pub fn pubkey_to_address(pk: &[u8]) -> (a: String)
    requires
        pk@.len() == 65,
    ensures
        a@ == address_of_key(pk@),
{
    let raw = slice_subrange(pk, 1, 65);
    let hash = keccak256_digest(raw);
    let tail = slice_subrange(hash.as_slice(), 12, 32);
    let h = hex_encode(tail);
    concat("0x", h.as_str())
}

/// The public key (65-byte uncompressed form) that a hex text stands for,
/// or the error `address_from_pubkey_hex` reports.
pub open spec fn key_from_hex(s: Seq<char>) -> Result<Seq<u8>, Seq<char>> {
    let text = strip_0x(s);
    let bytes = encode_utf8(text);
    if !hex_decodable(bytes) {
        Err("hex: "@ + hex_error_text(text))
    } else {
        let raw = hex_decoded(bytes);
        if raw.len() == 65 {
            match secp_parse_full(raw) {
                Some(k) => Ok(k),
                None => Err("pk: "@ + "Invalid public key"@),
            }
        } else if raw.len() == 33 {
            match secp_parse_compressed(raw) {
                Some(k) => Ok(k),
                None => Err("pk: "@ + "Invalid public key"@),
            }
        } else {
            Err("bad pubkey len: "@ + decimal(raw.len()))
        }
    }
}

/// The address of the public key a hex text stands for, or the error.
pub open spec fn address_from_hex(s: Seq<char>) -> Result<Seq<char>, Seq<char>> {
    match key_from_hex(s) {
        Ok(k) => Ok(address_of_key(k)),
        Err(e) => Err(e),
    }
}

/// Derives the address of a public key written in hex (with or without
/// `0x`), in its 65-byte uncompressed or 33-byte compressed encoding.
pub fn address_from_pubkey_hex(pubkey_hex: &str) -> (r: Result<String, String>)
    ensures
        result_view(r) == address_from_hex(pubkey_hex@),
{
    let text = strip_0x_prefix(pubkey_hex);
    let raw = match hex_decode(text) {
        Ok(v) => v,
        Err(e) => {
            return Err(concat("hex: ", e.as_str()));
        },
    };
    let pk = if raw.len() == 65 {
        match parse_full_public_key(raw.as_slice()) {
            Ok(k) => k,
            Err(e) => {
                return Err(concat("pk: ", e.as_str()));
            },
        }
    } else if raw.len() == 33 {
        match parse_compressed_public_key(raw.as_slice()) {
            Ok(k) => k,
            Err(e) => {
                return Err(concat("pk: ", e.as_str()));
            },
        }
    } else {
        let n = usize_to_decimal(raw.len());
        return Err(concat("bad pubkey len: ", n.as_str()));
    };
    proof {
        assert(pk@.len() == 65);
    }
    Ok(pubkey_to_address(pk.as_slice()))
}

/// The text that is hashed for a signed message: the Ethereum prefix, the
/// byte length of the message in decimal, then the message.
pub open spec fn eth_signed_text(message: Seq<char>) -> Seq<char> {
    "\x19Ethereum Signed Message:\n"@ + decimal(encode_utf8(message).len()) + message
}

/// The 32-byte hash that a message is signed under.
pub open spec fn eth_hash(message: Seq<char>) -> Seq<u8> {
    keccak256(encode_utf8(eth_signed_text(message)))
}

/// Hashes a message the way Ethereum's `personal_sign` does.
pub fn eth_message_hash(message: &str) -> (h: Vec<u8>)
    ensures
        h@ == eth_hash(message@),
        h@.len() == 32,
{
    let n = usize_to_decimal(message.as_bytes().len());
    let mut text = owned("\x19Ethereum Signed Message:\n");
    text.append(n.as_str());
    text.append(message);
    keccak256_digest(text.as_str().as_bytes())
}

/// The hex text of the signature of a message with a secret key: `0x`, the
/// 64 signature bytes, then the recovery id plus 27.
pub open spec fn signature_text(message: Seq<char>, sk: Seq<u8>) -> Seq<char> {
    let s = secp_sign(eth_hash(message), sk);
    "0x"@ + hex_lower(s.0.push((s.1 + 27) as u8))
}

/// Signs a message with a valid secret key.
pub fn sign_message(message: &str, sk: &[u8]) -> (s: String)
    requires
        valid_secret(sk@),
    ensures
        s@ == signature_text(message@, sk@),
        recovered_address(message@, s@) == Ok::<Seq<char>, Seq<char>>(address_of_key(secp_public_key(sk@))),
{
    let hash = eth_message_hash(message);
    let (sig, recid) = sign_hash(hash.as_slice(), sk);
    let mut out = sig;
    out.push(recid + 27);
    let h = hex_encode(out.as_slice());
    proof {
        lemma_strip_0x_prefixed(h@);
        lemma_hex_roundtrip(out@);
        assert(out@.subrange(0, 64) =~= sig@);
    }
    concat("0x", h.as_str())
}

/// Dropping the `0x` of a text that starts with it.
pub proof fn lemma_strip_0x_prefixed(h: Seq<char>)
    ensures
        strip_0x("0x"@ + h) == h,
{
    reveal_strlit("0x");
    assert(("0x"@ + h).subrange(2, ("0x"@ + h).len() as int) =~= h);
}

/// The address that signed a message, recovered from the hex text of its
/// signature, or the error `recover_address` reports.
pub open spec fn recovered_address(message: Seq<char>, sig_hex: Seq<char>) -> Result<Seq<char>, Seq<char>> {
    let text = strip_0x(sig_hex);
    let b = encode_utf8(text);
    if !hex_decodable(b) {
        Err("sig hex: "@ + hex_error_text(text))
    } else {
        let bytes = hex_decoded(b);
        let sig = bytes.subrange(0, 64);
        if bytes.len() != 65 {
            Err("sig len "@ + decimal(bytes.len()))
        } else if !standard_signature(sig) {
            Err("parse sig: "@ + "Invalid signature"@)
        } else {
            let v = bytes[64];
            let id: int = if v >= 27 { v - 27 } else { v as int };
            if id >= 4 {
                Err("recid: "@ + "Invalid recovery ID"@)
            } else {
                match secp_recover(eth_hash(message), sig, id as u8) {
                    Some(k) => Ok(address_of_key(k)),
                    None => Err("recover: "@ + "Invalid signature"@),
                }
            }
        }
    }
}

/// Recovers the address that signed `message` from the hex text of the
/// signature (64 bytes of r and s, then the recovery id, 27 added or not).
pub fn recover_address(message: &str, sig_hex: &str) -> (r: Result<String, String>)
    ensures
        result_view(r) == recovered_address(message@, sig_hex@),
{
    let text = strip_0x_prefix(sig_hex);
    let bytes = match hex_decode(text) {
        Ok(v) => v,
        Err(e) => {
            return Err(concat("sig hex: ", e.as_str()));
        },
    };
    if bytes.len() != 65 {
        let n = usize_to_decimal(bytes.len());
        return Err(concat("sig len ", n.as_str()));
    }
    let sig = match parse_standard_signature(slice_subrange(bytes.as_slice(), 0, 64)) {
        Ok(s) => s,
        Err(e) => {
            return Err(concat("parse sig: ", e.as_str()));
        },
    };
    let v = bytes[64];
    let recid_byte = if v >= 27 { v - 27 } else { v };
    let recid = match parse_recovery_id(recid_byte) {
        Ok(id) => id,
        Err(e) => {
            return Err(concat("recid: ", e.as_str()));
        },
    };
    let hash = eth_message_hash(message);
    let recovered = match recover_public_key(hash.as_slice(), sig.as_slice(), recid) {
        Ok(k) => k,
        Err(e) => {
            return Err(concat("recover: ", e.as_str()));
        },
    };
    Ok(pubkey_to_address(recovered.as_slice()))
}


/// The ids of a list of transactions.
pub open spec fn tx_ids(txs: Seq<Transaction>) -> Seq<Seq<char>> {
    txs.map_values(|t: Transaction| t.id@)
}

/// The text a block hash is computed from:
/// `index|timestamp|previous hash|nonce|id,id,...`.
pub open spec fn block_preimage(index: u64, timestamp: u64, prev_hash: Seq<char>, nonce: u64, txs: Seq<Transaction>) -> Seq<char> {
    decimal(index as nat) + "|"@ + decimal(timestamp as nat) + "|"@ + prev_hash + "|"@
        + decimal(nonce as nat) + "|"@ + join(tx_ids(txs), ","@)
}

/// The hash of a block's fields: lower-case hex of the SHA-256 of the UTF-8
/// bytes of its preimage.
pub open spec fn block_hash(index: u64, timestamp: u64, prev_hash: Seq<char>, nonce: u64, txs: Seq<Transaction>) -> Seq<char> {
    hex_lower(sha256(encode_utf8(block_preimage(index, timestamp, prev_hash, nonce, txs))))
}

proof fn lemma_join_step(parts: Seq<Seq<char>>, sep: Seq<char>, i: int)
    requires
        0 <= i < parts.len(),
    ensures
        join(parts.take(i + 1), sep) == if i == 0 {
            parts[0]
        } else {
            join(parts.take(i), sep) + sep + parts[i]
        },
{
    assert(parts.take(i + 1).drop_last() =~= parts.take(i));
}

/// Appends the ids of `txs` to `out`, separated by commas.
fn append_ids(out: &mut String, txs: &[Transaction])
    ensures
        final(out)@ == old(out)@ + join(tx_ids(txs@), ","@),
{
    let ghost start = out@;
    let ghost ids = tx_ids(txs@);
    let mut i: usize = 0;
    while i < txs.len()
        invariant
            0 <= i <= txs@.len(),
            ids == tx_ids(txs@),
            ids.len() == txs@.len(),
            out@ == start + join(ids.take(i as int), ","@),
        decreases txs@.len() - i,
    {
        proof {
            lemma_join_step(ids, ","@, i as int);
        }
        if i > 0 {
            out.append(",");
        }
        out.append(txs[i].id.as_str());
        assert(ids[i as int] == txs@[i as int].id@);
        i = i + 1;
    }
    assert(ids.take(txs@.len() as int) =~= ids);
}

/// Hashes a block's fields.
pub fn compute_block_hash(index: u64, timestamp: u64, prev_hash: &str, nonce: u64, txs: &[Transaction]) -> (h: String)
    ensures
        h@ == block_hash(index, timestamp, prev_hash@, nonce, txs@),
        h@.len() == 64,
{
    let mut data = u64_to_decimal(index);
    data.append("|");
    data.append(u64_to_decimal(timestamp).as_str());
    data.append("|");
    data.append(prev_hash);
    data.append("|");
    data.append(u64_to_decimal(nonce).as_str());
    data.append("|");
    append_ids(&mut data, txs);
    let digest = sha256_digest(data.as_str().as_bytes());
    hex_encode(digest.as_slice())
}

} // verus!
