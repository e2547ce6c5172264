use blockchain_p2p::crypto::{address_from_pubkey_hex, recover_address, sign_message};
use blockchain_p2p::mining::{create_genesis, difficulty_prefix};
use blockchain_p2p::node::{longest_valid_chain, normalize_seed, AppState, BlockOutcome, TxOutcome};
use blockchain_p2p::types::{Block, Transaction, BLOCK_REWARD, ZEROS};
use blockchain_p2p::validation::{get_balance, validate_block, validate_coinbase, validate_full_chain, validate_transfer};
use blockchain_p2p::wallet::{create_wallet, new_transfer, wallet_from_privkey};

fn outcome_text(o: &TxOutcome) -> String {
    match o {
        TxOutcome::Rejected(m) => format!("rejected: {m}"),
        TxOutcome::AlreadyKnown => "known".to_string(),
        TxOutcome::Accepted { should_mine } => format!("accepted {should_mine}"),
    }
}

#[test]
fn genesis_is_valid_and_meets_difficulty() {
    let g = create_genesis().unwrap();
    assert_eq!(g.index, 0);
    assert_eq!(g.previous_hash, "0");
    assert!(g.transactions.is_empty());
    assert!(g.hash.starts_with("0000"));
    assert_eq!(difficulty_prefix(), "0000");
    assert!(validate_full_chain(&[g.clone()]));
    assert!(validate_block(&g, None, &[]).is_ok());
    let mut bad = g.clone();
    bad.nonce += 1;
    assert!(validate_block(&bad, None, &[]).unwrap_err().starts_with("hash mismatch: "));
    assert!(!validate_full_chain(&[]));
}

#[test]
fn wallet_round_trips_through_its_private_key() {
    let w = create_wallet();
    assert!(w.address.starts_with("0x"));
    assert_eq!(w.address.len(), 42);
    assert!(w.public_key_hex.starts_with("0x04"));
    assert_eq!(w.public_key_hex.len(), 132);
    let hex: String = w.secret_key.iter().map(|b| format!("{b:02x}")).collect();
    let again = wallet_from_privkey(&format!("0x{hex}")).unwrap();
    assert_eq!(again.address, w.address);
    assert_eq!(again.public_key_hex, w.public_key_hex);
    assert_eq!(address_from_pubkey_hex(&w.public_key_hex).unwrap(), w.address);
}

#[test]
fn wallet_from_privkey_reports_each_refusal() {
    assert_eq!(wallet_from_privkey("zz").err().unwrap(), "bad hex");
    assert_eq!(wallet_from_privkey("0x0011").err().unwrap(), "privkey must be 32 bytes");
    assert_eq!(wallet_from_privkey(&"00".repeat(32)).err().unwrap(), "invalid privkey");
}

#[test]
fn signature_recovers_the_signer_address() {
    let w = create_wallet();
    let sig = sign_message("hello", &w.secret_key);
    assert!(sig.starts_with("0x"));
    assert_eq!(sig.len(), 132);
    assert_eq!(recover_address("hello", &sig).unwrap(), w.address);
    assert_ne!(recover_address("other", &sig).unwrap(), w.address);
    assert!(recover_address("hello", "0x1234").is_err());
}

#[test]
fn node_accepts_mines_and_syncs() {
    let genesis = create_genesis().unwrap();
    let miner = create_wallet();
    let mut node = AppState::new(miner, "http://127.0.0.1:3000".to_string(), genesis.clone());
    let miner_addr = node.wallet.address.clone();

    let coinbase = Transaction {
        id: "c".into(),
        tx_type: "COINBASE".into(),
        from: "SYSTEM".into(),
        to: miner_addr.clone(),
        amount: BLOCK_REWARD,
        timestamp: 5,
        public_key: ZEROS.into(),
        signature: ZEROS.into(),
    };
    assert_eq!(outcome_text(&node.accept_transaction(coinbase.clone())), "rejected: COINBASE rejected");
    assert!(validate_coinbase(&coinbase, 5).is_ok());
    assert_eq!(validate_coinbase(&coinbase, 6).unwrap_err(), "coinbase ts mismatch");

    let bob = create_wallet();
    let early = new_transfer(&node.wallet, &bob.address, 5, 1000, "t0".into());
    assert_eq!(
        outcome_text(&node.accept_transaction(early)),
        "rejected: insufficient balance: 0 < 5"
    );

    let first = node.mine_block().unwrap();
    assert_eq!(first.index, 1);
    assert_eq!(first.previous_hash, genesis.hash);
    assert_eq!(first.transactions.len(), 1);
    assert_eq!(get_balance(&miner_addr, &node.chain), 10);
    assert!(validate_full_chain(&node.chain));

    let pay = new_transfer(&node.wallet, &bob.address.to_uppercase().replace("0X", "0x"), 4, 2000, "t1".into());
    assert_eq!(pay.to, bob.address);
    assert!(validate_transfer(&pay, &node.chain).is_ok());
    assert_eq!(outcome_text(&node.accept_transaction(pay.clone())), "accepted false");
    assert_eq!(outcome_text(&node.accept_transaction(pay.clone())), "known");
    assert_eq!(node.mempool.len(), 1);

    let second = node.mine_block().unwrap();
    assert_eq!(second.transactions.len(), 2);
    assert!(node.mempool.is_empty());
    assert_eq!(get_balance(&miner_addr, &node.chain), 16);
    assert_eq!(get_balance(&bob.address, &node.chain), 4);
    assert!(validate_full_chain(&node.chain));
    assert_eq!(outcome_text(&node.accept_transaction(pay)), "known");
    assert!(validate_full_chain(&node.chain[..2]));
    assert!(validate_full_chain(&node.chain[..1]));

    let status = node.status();
    assert_eq!(status.chain_length, 3);
    assert_eq!(status.latest_hash, second.hash);
    assert_eq!(status.peer_count, 0);

    let mut other = AppState::new(create_wallet(), "http://127.0.0.1:3001".to_string(), genesis.clone());
    match other.accept_block(second.clone()) {
        BlockOutcome::Syncing { chain_length } => assert_eq!(chain_length, 1),
        _ => panic!("expected syncing"),
    }
    let mut tampered = first.clone();
    tampered.nonce += 1;
    assert!(matches!(other.accept_block(tampered), BlockOutcome::Invalid));
    match other.accept_block(first.clone()) {
        BlockOutcome::Appended { chain_length } => assert_eq!(chain_length, 2),
        _ => panic!("expected appended"),
    }
    match other.accept_block(first.clone()) {
        BlockOutcome::Ignored { chain_length } => assert_eq!(chain_length, 2),
        _ => panic!("expected ignored"),
    }
    match other.accept_block(second.clone()) {
        BlockOutcome::Appended { chain_length } => assert_eq!(chain_length, 3),
        _ => panic!("expected appended"),
    }

    let candidates: Vec<Vec<Block>> = vec![vec![genesis.clone()], node.chain.clone(), vec![first.clone()]];
    assert_eq!(longest_valid_chain(1, &candidates), Some(1));
    assert_eq!(longest_valid_chain(3, &candidates), None);
    let mut fresh = AppState::new(create_wallet(), "http://x".to_string(), genesis);
    assert!(fresh.adopt_longer_valid_chain(node.chain.clone()));
    assert_eq!(fresh.chain.len(), 3);
    assert!(!fresh.adopt_longer_valid_chain(vec![first]));
}

#[test]
fn peers_are_registered_once_without_trailing_slashes() {
    let genesis = Block {
        index: 0,
        timestamp: 1,
        transactions: vec![],
        previous_hash: "0".into(),
        hash: "h".into(),
        nonce: 0,
    };
    let mut node = AppState::new(create_wallet(), "http://me".to_string(), genesis);
    assert_eq!(node.register_peer("http://a//"), "http://a");
    assert_eq!(node.register_peer("http://a"), "http://a");
    assert_eq!(node.register_peer("http://me/"), "http://me");
    assert_eq!(node.register_peer(""), "");
    assert_eq!(node.peers, vec!["http://a".to_string()]);
    let found = node.add_discovered_peers(
        &["http://b/".to_string(), "http://me".to_string(), "http://a".to_string()],
        "http://seed",
    );
    assert_eq!(found, vec!["http://b".to_string(), "http://a".to_string()]);
    assert_eq!(
        node.peers,
        vec!["http://a".to_string(), "http://b".to_string(), "http://seed".to_string()]
    );
    assert_eq!(normalize_seed("  http://x// "), "http://x");
}
