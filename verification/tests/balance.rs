use blockchain_p2p::types::{Block, Transaction};
use blockchain_p2p::validation::get_balance;

fn tx(from: &str, to: &str, amount: u64) -> Transaction {
    Transaction {
        id: format!("{from}-{to}-{amount}"),
        tx_type: "TRANSFER".into(),
        from: from.into(),
        to: to.into(),
        amount,
        timestamp: 1,
        public_key: "p".into(),
        signature: "s".into(),
    }
}

fn block(txs: Vec<Transaction>) -> Block {
    Block { index: 0, timestamp: 1, transactions: txs, previous_hash: "0".into(), hash: "h".into(), nonce: 0 }
}

#[test]
fn balances_add_up_over_chains_and_ignore_case() {
    let c1 = vec![block(vec![tx("SYSTEM", "0xAa", 10), tx("0xaa", "0xbb", 3)])];
    let c2 = vec![block(vec![tx("0xbb", "0xAA", 1)]), block(vec![tx("SYSTEM", "0xbb", 10)])];
    let both: Vec<Block> = c1.iter().chain(c2.iter()).cloned().collect();
    assert_eq!(get_balance("0xaa", &[]), 0);
    for a in ["0xaa", "0xbb", "0xcc"] {
        assert_eq!(get_balance(a, &both), get_balance(a, &c1) + get_balance(a, &c2));
    }
    assert_eq!(get_balance("0xaa", &both), 8);
    assert_eq!(get_balance("0xAA", &both), 8);
    assert_eq!(get_balance("0xbb", &both), 12);
}

#[test]
fn balance_wraps_like_64_bit_arithmetic() {
    let c1 = vec![block(vec![tx("SYSTEM", "x", i64::MAX as u64)])];
    let c2 = vec![block(vec![tx("SYSTEM", "x", 5)])];
    let both: Vec<Block> = c1.iter().chain(c2.iter()).cloned().collect();
    assert_eq!(get_balance("x", &both), get_balance("x", &c1).wrapping_add(get_balance("x", &c2)));
}

#[test]
fn valid_transfer_stays_valid_after_blocks_that_do_not_debit_its_sender() {
    let w = blockchain_p2p::wallet::create_wallet();
    let pay = blockchain_p2p::wallet::new_transfer(&w, "0xbob", 5, 7, "t".into());
    let mut chain = vec![block(vec![tx("SYSTEM", &w.address, 10)])];
    assert!(blockchain_p2p::validation::validate_transfer(&pay, &chain).is_ok());
    chain.push(block(vec![tx("SYSTEM", "0xcarol", 10), tx("0xcarol", &w.address, 1)]));
    assert!(blockchain_p2p::validation::validate_transfer(&pay, &chain).is_ok());
    chain.push(block(vec![tx(&w.address, "0xcarol", 9)]));
    assert_eq!(
        blockchain_p2p::validation::validate_transfer(&pay, &chain).unwrap_err(),
        "insufficient balance: 2 < 5"
    );
}

#[test]
fn an_ascii_address_and_its_upper_case_have_the_same_balance() {
    let chain = vec![block(vec![tx("SYSTEM", "0xab12", 10), tx("0xAB12", "0xcd", 4)])];
    let a = "0xab12";
    assert_eq!(get_balance(a, &chain), 6);
    assert_eq!(get_balance(&a.to_uppercase(), &chain), get_balance(a, &chain));
}
