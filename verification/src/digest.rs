//! Hash functions and hex encoding from outside crates, behind trusted
//! wrappers.  SHA-256 and Keccak-256 are named (their outputs take pages to
//! state); hex encoding and decoding are short enough to state exactly.

use sha2::Digest as Sha2Digest;
use sha3::Digest as Sha3Digest;
use vstd::prelude::*;
use vstd::string::StringSliceAdditionalSpecFns;
use vstd::utf8::encode_utf8;

verus! {

/// The SHA-256 digest of `data`.
pub uninterp spec fn sha256(data: Seq<u8>) -> Seq<u8>;

/// The Keccak-256 digest of `data` (the Ethereum variant of SHA-3).
pub uninterp spec fn keccak256(data: Seq<u8>) -> Seq<u8>;

/// Calls `sha2::Sha256::digest`.  Claims that the result is the named
/// digest of `data`, 32 bytes long.
#[verifier::external_body]
pub(crate) fn sha256_digest(data: &[u8]) -> (h: Vec<u8>)
    ensures
        h@ == sha256(data@),
        h@.len() == 32,
{
    <sha2::Sha256 as Sha2Digest>::digest(data).to_vec()
}

/// Calls `sha3::Keccak256::digest`.  Claims that the result is the named
/// digest of `data`, 32 bytes long.
#[verifier::external_body]
pub(crate) fn keccak256_digest(data: &[u8]) -> (h: Vec<u8>)
    ensures
        h@ == keccak256(data@),
        h@.len() == 32,
{
    <sha3::Keccak256 as Sha3Digest>::digest(data).to_vec()
}

/// Lower-case hex digit for `n < 16`.
pub open spec fn hex_digit(n: nat) -> char {
    if n < 10 {
        crate::text::digit_char(n)
    } else if n == 10 {
        'a'
    } else if n == 11 {
        'b'
    } else if n == 12 {
        'c'
    } else if n == 13 {
        'd'
    } else if n == 14 {
        'e'
    } else {
        'f'
    }
}

/// Lower-case hex rendering: two digits per byte, high nibble first.
pub open spec fn hex_lower(bytes: Seq<u8>) -> Seq<char> {
    Seq::new(
        2 * bytes.len(),
        |i: int|
            if i % 2 == 0 {
                hex_digit((bytes[i / 2] / 16) as nat)
            } else {
                hex_digit((bytes[i / 2] % 16) as nat)
            },
    )
}

/// Calls `hex::encode`.  Claims that the result is the lower-case hex
/// rendering of `data`.
#[verifier::external_body]
pub(crate) fn hex_encode(data: &[u8]) -> (s: String)
    ensures
        s@ == hex_lower(data@),
{
    hex::encode(data)
}

/// The value of a hex digit byte (`0-9`, `a-f`, `A-F`), if it is one.
pub open spec fn hex_value(b: u8) -> Option<nat> {
    if 48 <= b <= 57 {
        Some((b - 48) as nat)
    } else if 97 <= b <= 102 {
        Some((b - 97 + 10) as nat)
    } else if 65 <= b <= 70 {
        Some((b - 65 + 10) as nat)
    } else {
        None
    }
}

/// Whether `bytes` is a hex string that `hex::decode` accepts: an even
/// number of hex digits.
pub open spec fn hex_decodable(bytes: Seq<u8>) -> bool {
    &&& bytes.len() % 2 == 0
    &&& forall|i: int| 0 <= i < bytes.len() ==> #[trigger] hex_value(bytes[i]) is Some
}

/// The bytes that a decodable hex string stands for.
pub open spec fn hex_decoded(bytes: Seq<u8>) -> Seq<u8> {
    Seq::new(
        bytes.len() / 2,
        |i: int| (hex_value(bytes[2 * i])->0 * 16 + hex_value(bytes[2 * i + 1])->0) as u8,
    )
}

/// The text of the error that `hex::decode` reports for a string it refuses.
pub uninterp spec fn hex_error_text(s: Seq<char>) -> Seq<char>;

/// Calls `hex::decode` on the UTF-8 bytes of `s`.  Claims that it succeeds
/// exactly on even-length strings of hex digits, with the decoded bytes, and
/// otherwise reports the named error text.
#[verifier::external_body]
pub(crate) fn hex_decode(s: &str) -> (r: Result<Vec<u8>, String>)
    ensures
        match r {
            Ok(v) => hex_decodable(s.spec_bytes()) && v@ == hex_decoded(s.spec_bytes()),
            Err(e) => !hex_decodable(s.spec_bytes()) && e@ == hex_error_text(s@),
        },
{
    match hex::decode(s) {
        Ok(v) => Ok(v),
        Err(e) => Err(e.to_string()),
    }
}


proof fn lemma_hex_digit(n: nat)
    requires
        n < 16,
    ensures
        (hex_digit(n) as u32) < 128,
        hex_value(hex_digit(n) as u8) == Some(n),
{
    if n == 0 { assert('0' as u8 == 48); }
    else if n == 1 { assert('1' as u8 == 49); }
    else if n == 2 { assert('2' as u8 == 50); }
    else if n == 3 { assert('3' as u8 == 51); }
    else if n == 4 { assert('4' as u8 == 52); }
    else if n == 5 { assert('5' as u8 == 53); }
    else if n == 6 { assert('6' as u8 == 54); }
    else if n == 7 { assert('7' as u8 == 55); }
    else if n == 8 { assert('8' as u8 == 56); }
    else if n == 9 { assert('9' as u8 == 57); }
    else if n == 10 { assert('a' as u8 == 97); }
    else if n == 11 { assert('b' as u8 == 98); }
    else if n == 12 { assert('c' as u8 == 99); }
    else if n == 13 { assert('d' as u8 == 100); }
    else if n == 14 { assert('e' as u8 == 101); }
    else { assert('f' as u8 == 102); }
}

/// Decoding the UTF-8 bytes of the lower-case hex of `bytes` gives back
/// `bytes`.
pub proof fn lemma_hex_roundtrip(bytes: Seq<u8>)
    ensures
        hex_decodable(encode_utf8(hex_lower(bytes))),
        hex_decoded(encode_utf8(hex_lower(bytes))) == bytes,
{
    let h = hex_lower(bytes);
    assert forall|i: int| 0 <= i < h.len() implies '\0' <= #[trigger] h[i] <= '\u{7f}' by {
        let b = bytes[i / 2];
        lemma_hex_digit((b / 16) as nat);
        lemma_hex_digit((b % 16) as nat);
    }
    assert(vstd::utf8::is_ascii_chars(h));
    vstd::utf8::is_ascii_chars_encode_utf8(h);
    let e = encode_utf8(h);
    assert forall|i: int| 0 <= i < e.len() implies #[trigger] hex_value(e[i]) is Some by {
        assert(e[i] == h[i] as u8);
        let b = bytes[i / 2];
        lemma_hex_digit((b / 16) as nat);
        lemma_hex_digit((b % 16) as nat);
    }
    assert forall|i: int| 0 <= i < bytes.len() implies #[trigger] hex_decoded(e)[i] == bytes[i] by {
        let b = bytes[i];
        assert(e[2 * i] == h[2 * i] as u8);
        assert(e[2 * i + 1] == h[2 * i + 1] as u8);
        assert((2 * i) / 2 == i);
        assert((2 * i + 1) / 2 == i);
        assert((2 * i) % 2 == 0);
        assert((2 * i + 1) % 2 == 1);
        lemma_hex_digit((b / 16) as nat);
        lemma_hex_digit((b % 16) as nat);
        assert((b / 16) * 16 + b % 16 == b);
    }
    assert(hex_decoded(e) =~= bytes);
}

} // verus!
