use blockchain_p2p::consensus_engine::transaction::Transaction as EngineTransaction;
use blockchain_p2p::crypto::{address_from_pubkey_hex, compute_block_hash, eth_message_hash, pubkey_to_address};
use blockchain_p2p::text::{
    i64_to_decimal, starts_with, str_eq, strip_0x_prefix, trim, trim_end_slash, u128_to_decimal, u64_to_decimal,
    usize_to_decimal,
};
use blockchain_p2p::types::Transaction;
use sha2::Digest;

fn sha256_hex(data: &[u8]) -> String {
    hex::encode(sha2::Sha256::digest(data))
}

fn keccak(data: &[u8]) -> Vec<u8> {
    sha3::Keccak256::digest(data).to_vec()
}

#[test]
fn transaction_id_is_the_sha256_hex_of_its_bytes() {
    let t = EngineTransaction::new("0xAlice".into(), "0xBob".into(), 50, "sig1".into());
    assert_eq!(t.tx_id(), sha256_hex(&t.to_bytes()));
    assert_ne!(t.tx_id(), hex::encode(t.to_bytes()));
}

#[test]
fn eth_message_hash_is_keccak_of_the_prefixed_text() {
    assert_eq!(eth_message_hash("hi"), keccak(b"\x19Ethereum Signed Message:\n2hi"));
    assert_eq!(eth_message_hash(""), keccak(b"\x19Ethereum Signed Message:\n0"));
    assert_eq!(
        hex::encode(keccak(b"")),
        "c5d2460186f7233c927e7db2dcc703c0e500b653ca82273b7bfad8045d85a470"
    );
}

#[test]
fn hex_errors_are_reported_with_their_text() {
    assert_eq!(address_from_pubkey_hex("0xabc").unwrap_err(), "hex: Odd number of digits");
    assert_eq!(address_from_pubkey_hex("zz").unwrap_err(), "hex: Invalid character 'z' at position 0");
    assert_eq!(address_from_pubkey_hex("0x0011").unwrap_err(), "bad pubkey len: 2");
    assert_eq!(address_from_pubkey_hex(&format!("0x05{}", "11".repeat(64))).unwrap_err(), "pk: Invalid public key");
}

#[test]
fn decimal_texts() {
    assert_eq!(u64_to_decimal(0), "0");
    assert_eq!(u64_to_decimal(u64::MAX), "18446744073709551615");
    assert_eq!(u128_to_decimal(1743086300000), "1743086300000");
    assert_eq!(i64_to_decimal(-42), "-42");
    assert_eq!(i64_to_decimal(i64::MIN), "-9223372036854775808");
    assert_eq!(usize_to_decimal(7), "7");
}

#[test]
fn string_helpers() {
    assert_eq!(trim("  a b \n"), "a b");
    assert_eq!(trim("\u{3000}x\u{3000}"), "x");
    let ws: String = (0u32..0x3001).filter_map(char::from_u32).filter(|c| c.is_whitespace()).collect();
    assert_eq!(trim(&format!("{ws}y{ws}")), "y");
    assert_eq!(trim("\u{200b}z"), "\u{200b}z");
    assert_eq!(trim_end_slash("http://x///"), "http://x");
    assert_eq!(strip_0x_prefix("0xAB"), "AB");
    assert_eq!(strip_0x_prefix("AB"), "AB");
    assert!(starts_with("0000ab", "0000"));
    assert!(!starts_with("000", "0000"));
    assert!(str_eq("é", "é"));
    assert!(!str_eq("a", "b"));
    assert_eq!(blockchain_p2p::text::concat("a", "bc"), "abc");
}

#[test]
fn address_formula() {
    let mut pk = vec![4u8];
    pk.extend((0..64).map(|i| i as u8));
    let addr = pubkey_to_address(&pk);
    let k = keccak(&pk[1..]);
    assert_eq!(addr, format!("0x{}", hex::encode(&k[12..])));
}

#[test]
fn block_hash_formula() {
    let tx = Transaction {
        id: "id1".into(),
        tx_type: "TRANSFER".into(),
        from: "a".into(),
        to: "b".into(),
        amount: 1,
        timestamp: 2,
        public_key: "p".into(),
        signature: "s".into(),
    };
    let h = compute_block_hash(3, 4, "prev", 5, &[tx.clone(), tx]);
    assert_eq!(h, sha256_hex(b"3|4|prev|5|id1,id1"));
}

#[test]
fn whitespace_is_what_std_says() {
    for c in (0u32..=0x10FFFF).filter_map(char::from_u32) {
        assert_eq!(trim(&c.to_string()).is_empty(), c.is_whitespace(), "{:?}", c);
    }
}
