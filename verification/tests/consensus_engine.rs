use blockchain_p2p::consensus_engine::block::Block;
use blockchain_p2p::consensus_engine::miner::BlockMiner;
use blockchain_p2p::consensus_engine::traits::{Hasher, Miner, Sha256Hasher};
use blockchain_p2p::consensus_engine::transaction::Transaction;
use blockchain_p2p::consensus_engine::validation::{BlockValidator, ChainValidator};

fn genesis() -> Block {
    Block::new(0, vec![], "".to_string())
}

fn generate_a_correct_block(previous: &Block) -> Block {
    Block::new(previous.index + 1, vec![], previous.hash.to_string())
}

fn generate_a_block_with_transactions(previous: &Block) -> Block {
    Block::new(previous.index + 1, generate_random_transactions(), previous.hash.to_string())
}

fn generate_random_transactions() -> Vec<Transaction> {
    vec![
        Transaction::new("0xAlice".into(), "0xBob".into(), 50, "sig1".into()),
        Transaction::new("0xBob".into(), "0xCarlos".into(), 25, "sig2".into()),
    ]
}

fn generate_a_block_with_mining_invalid_pow(previous: &Block) -> Block {
    let mut b = generate_a_correct_block(previous);
    b.hash = "123456".to_string();
    b
}

fn generate_a_block_with_an_invalid_previous_hash(previous: &Block) -> Block {
    Block::new(previous.index + 1, vec![], "BAD_HASH".to_string())
}

fn generate_a_chain_structurally_correct(n: usize) -> Vec<Block> {
    let mut chain = vec![genesis()];
    for _ in 1..n {
        let last = chain.last().unwrap();
        let next = generate_a_correct_block(last);
        chain.push(next);
    }
    chain
}

#[test]
fn validate_index() {
    let last_block = Block::new(1, vec![], "0x00".to_string());
    let new_block = Block::new(2, vec![], last_block.hash.to_string());
    assert_eq!(new_block.index, last_block.index + 1);
}

#[test]
fn validate_timestamp() {}

#[test]
fn validate_hash() {}

#[test]
fn validate_previous_hash() {}

#[test]
fn validate_if_hash_correctly_calculated() {}

#[test]
fn validate_if_previous_hash_match_with_last_block() {}

#[test]
fn should_pass_ok_when_you_have_a_valid_hash_in_block() {}

#[test]
fn should_throws_error_when_you_have_a_invalid_hash_in_block() {}

#[test]
fn block_should_have_a_correct_index() {
    let previous_block = genesis();
    let block = generate_a_correct_block(&previous_block);
    assert!(block.index == previous_block.index + 1);
}

#[test]
fn block_should_have_a_correct_previous_hash() {
    let block = Block::new(5, vec![], "abc".to_string());
    assert_eq!(block.previous_hash, "abc".to_string());
}

#[test]
fn new_block_check_timestamp() {
    let before = std::time::SystemTime::now().duration_since(std::time::UNIX_EPOCH).unwrap().as_millis();
    let block = Block::new(0, vec![], "".to_string());
    let after = std::time::SystemTime::now().duration_since(std::time::UNIX_EPOCH).unwrap().as_millis();

    assert!(block.timestamp as u128 >= before && block.timestamp as u128 <= after);
}

#[test]
fn block_should_have_a_correct_hash() {
    let previous = genesis();
    let block = generate_a_correct_block(&previous);
    let recalculated = Sha256Hasher::hash_block(&block);
    assert_eq!(block.hash, recalculated);
}

#[test]
fn block_should_have_a_zero_nonce_value() {
    let previous = genesis();
    let block = generate_a_correct_block(&previous);

    assert_eq!(block.nonce, 0);
}

#[test]
fn validator_should_accept_genesis_block() {
    let genesis = genesis();
    assert!(BlockValidator::validate(&genesis, None));
}

#[test]
fn validator_should_reject_non_genesis_when_previous_is_none() {
    let block = Block::new(5, vec![], "".to_string());
    assert!(!BlockValidator::validate(&block, None));
}

#[test]
fn reject_block_with_wrong_previous_hash() {
    let b1 = genesis();
    let b2 = generate_a_block_with_an_invalid_previous_hash(&b1);
    assert!(BlockValidator::validate(&b2, Some(&b1)));
}

#[test]
fn reject_block_with_invalid_pow() {
    let b1 = genesis();
    let b2 = generate_a_block_with_mining_invalid_pow(&b1);
    assert!(BlockValidator::validate(&b2, Some(&b1)));
}

#[test]
fn miner_should_increment_nonce_until_valid_pow() {
    let prev = genesis();
    let _block = generate_a_correct_block(&prev);

    let _miner = BlockMiner;
}

#[test]
fn miner_should_not_modify_previous_hash() {
    let prev = genesis();
    let _block = generate_a_correct_block(&prev);

    let _miner = BlockMiner;
}

#[test]
fn mined_block_has_leading_zeros_and_keeps_its_fields() {
    let prev = genesis();
    let block = generate_a_correct_block(&prev);
    let previous_hash = block.previous_hash.clone();
    let mined = BlockMiner.mine(block, 2).unwrap();
    assert!(mined.hash.starts_with("00"));
    assert_eq!(mined.hash, mined.calculate_hash());
    assert_eq!(mined.previous_hash, previous_hash);
    assert_eq!(mined.index, prev.index + 1);
    assert!(BlockValidator::validate(&mined, Some(&prev)));
}

#[test]
fn mining_at_difficulty_zero_keeps_the_nonce() {
    let prev = genesis();
    let mut block = generate_a_correct_block(&prev);
    block.nonce = 7;
    let mined = BlockMiner.mine(block, 0).unwrap();
    assert_eq!(mined.nonce, 7);
    assert_eq!(mined.hash, mined.calculate_hash());
}

#[test]
fn block_hash_covers_transactions() {
    let prev = genesis();
    let a = generate_a_block_with_transactions(&prev);
    let mut b = a.clone();
    b.transactions.pop();
    assert_ne!(a.calculate_hash(), b.calculate_hash());
    assert_eq!(a.hash, a.calculate_hash());
    assert_eq!(a.hash.len(), 64);
}

#[test]
fn chain_validator_accepts_a_correct_chain() {
    let chain = generate_a_chain_structurally_correct(4);
    assert!(ChainValidator::validate(&chain));
}

#[test]
fn chain_validator_rejects_empty_and_broken_chains() {
    assert!(!ChainValidator::validate(&vec![]));
    let mut chain = generate_a_chain_structurally_correct(3);
    chain[2].index = 9;
    assert!(!ChainValidator::validate(&chain));
    let mut chain = generate_a_chain_structurally_correct(2);
    chain[0].hash = "x".to_string();
    assert!(!ChainValidator::validate(&chain));
}

#[test]
fn hash_field_does_not_enter_the_hash() {
    let mut b = generate_a_correct_block(&genesis());
    let before = b.calculate_hash();
    b.hash = "anything".to_string();
    assert_eq!(b.calculate_hash(), before);
}

#[test]
fn prefixes_of_a_passing_chain_pass() {
    let chain = generate_a_chain_structurally_correct(5);
    for k in 1..=5 {
        assert!(ChainValidator::validate(&chain[..k].to_vec()));
    }
}

#[test]
fn miner_should_generate_a_valid_pow_hash() {
    let prev = genesis();
    let block = generate_a_correct_block(&prev);

    let miner = BlockMiner;
    let mined = miner.mine(block, 3).unwrap();

    assert!(mined.hash.starts_with("000"));
}

#[test]
fn miner_should_change_hash() {
    let prev = genesis();
    let block = generate_a_correct_block(&prev);
    let miner = BlockMiner;
    let _mined = miner.mine(block, 3);
}

#[test]
fn miner_should_produce_a_block_accepted_by_validator() {
    let prev = genesis();
    let block = generate_a_correct_block(&prev);

    let miner = BlockMiner;
    let mined = miner.mine(block, 2).unwrap();

    assert!(BlockValidator::validate(&mined, Some(&prev)));
}

#[test]
fn miner_should_produce_hash_matching_recalculated_hash() {
    let prev = genesis();
    let block = generate_a_correct_block(&prev);

    let miner = BlockMiner;
    let mined = miner.mine(block, 3).unwrap();

    let recalculated = Sha256Hasher::hash_block(&mined);

    assert_eq!(recalculated, mined.hash);
}
