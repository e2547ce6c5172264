use blockchain_p2p::cli::{parse_command, parse_unsigned, prepare_send, split_seeds, CliCommand};
use blockchain_p2p::crypto::recover_address;
use blockchain_p2p::validation::canonical_transfer_text;
use blockchain_p2p::wallet::create_wallet;

fn strings(v: &[&str]) -> Vec<String> {
    v.iter().map(|s| s.to_string()).collect()
}

#[test]
fn unsigned_numbers_parse_as_std_does() {
    for s in ["0", "7", "+7", "0042", "18446744073709551615", "", "+", "-1", "1a", " 1", "18446744073709551616"] {
        assert_eq!(parse_unsigned(s, u64::MAX), s.parse::<u64>().ok(), "{s}");
    }
    for s in ["65535", "65536", "80", "+80"] {
        assert_eq!(parse_unsigned(s, 65535).map(|v| v as u16), s.parse::<u16>().ok(), "{s}");
    }
}

#[test]
fn commands_from_arguments() {
    assert!(matches!(parse_command(&strings(&["p"])), CliCommand::Usage));
    assert!(matches!(parse_command(&strings(&["p", "wallet"])), CliCommand::Wallet));
    assert!(matches!(parse_command(&strings(&["p", "3000"])), CliCommand::Run(3000)));
    assert!(matches!(parse_command(&strings(&["p", "70000"])), CliCommand::BadPort));
    match parse_command(&strings(&["p", "send", "a", "b"])) {
        CliCommand::Send(rest) => assert_eq!(rest, strings(&["a", "b"])),
        _ => panic!("expected send"),
    }
}

#[test]
fn seeds_are_split_and_trimmed() {
    assert_eq!(split_seeds(" http://a:1 , http://b:2,"), strings(&["http://a:1", "http://b:2", ""]));
    assert_eq!(split_seeds(""), strings(&[""]));
}

#[test]
fn send_builds_a_signed_transfer_or_refuses() {
    assert_eq!(
        prepare_send(&strings(&["a"]), 1, "id".into()).unwrap_err(),
        "Usage: send <node_url> <to> <amount> <private_key>"
    );
    assert_eq!(prepare_send(&strings(&["u", "t", "x", "k"]), 1, "id".into()).unwrap_err(), "bad amount");
    assert_eq!(prepare_send(&strings(&["u", "t", "5", "zz"]), 1, "id".into()).unwrap_err(), "bad hex");
    let w = create_wallet();
    let hex: String = w.secret_key.iter().map(|b| format!("{b:02x}")).collect();
    let (url, tx) = prepare_send(&strings(&["http://n:1//", "0xABC", "5", &hex]), 77, "id9".into()).unwrap();
    assert_eq!(url, "http://n:1");
    assert_eq!(tx.id, "id9");
    assert_eq!(tx.tx_type, "TRANSFER");
    assert_eq!(tx.from, w.address);
    assert_eq!(tx.to, "0xabc");
    assert_eq!(tx.amount, 5);
    assert_eq!(tx.timestamp, 77);
    assert_eq!(tx.public_key, w.public_key_hex);
    let canonical = canonical_transfer_text(&tx.from, &tx.to, 5, 77);
    assert_eq!(canonical, format!("TRANSFER|{}|0xabc|5|77", w.address));
    assert_eq!(recover_address(&canonical, &tx.signature).unwrap(), w.address);
}
