use blockchain_p2p::common::ports::Hasher;
use blockchain_p2p::common::types::{Block, Tx};
use blockchain_p2p::consensus_engine::engine::Engine;
use blockchain_p2p::consensus_engine::ports::{BlockValidator, Miner};

struct ZeroHasher;

impl Hasher for ZeroHasher {
    fn spec_hash(&self, _data: vstd::seq::Seq<u8>) -> blockchain_p2p::common::types::Hash {
        blockchain_p2p::common::types::Hash([0; 32])
    }

    fn hash(&self, _data: &[u8]) -> blockchain_p2p::common::types::Hash {
        blockchain_p2p::common::types::Hash([0; 32])
    }
}

/// Returns the block with its nonce prefixed by `difficulty` zeros, as a
/// correctly mined block would be.
struct CorrectlyMinedBlockMiner;

impl Miner for CorrectlyMinedBlockMiner {
    fn may_mine(&self, _block: Block, _difficulty: usize, _mined: Block) -> bool {
        true
    }

    fn mine(&self, block: Block, difficulty: usize) -> Block {
        let nonce: u64 = format!("{}{}", "0".repeat(difficulty), block.header.nonce).parse().unwrap();
        Block::new(block.header.version, block.header.prev_hash, nonce, block.txs, &ZeroHasher)
    }
}

struct AcceptEvery;

impl BlockValidator for AcceptEvery {
    fn accepts(&self, _prev: Block, _candidate: Block) -> bool {
        true
    }

    fn validate(&self, _prev_block: &Block, _candidate_block: &Block) -> bool {
        true
    }
}

struct RejectEvery;

impl BlockValidator for RejectEvery {
    fn accepts(&self, _prev: Block, _candidate: Block) -> bool {
        false
    }

    fn validate(&self, _prev_block: &Block, _candidate_block: &Block) -> bool {
        false
    }
}

#[test]
fn engine_mines_on_top_of_the_last_block_and_validates() {
    let difficulty = 3;
    let mut engine = Engine::new(Box::new(CorrectlyMinedBlockMiner), Box::new(AcceptEvery), difficulty);
    let hasher = ZeroHasher;
    let genesis_block = Block::new(0, blockchain_p2p::common::types::Hash::zero(), 0, vec![], &hasher);
    let new_block = engine.mine(vec![Tx::new(vec![], vec![])], genesis_block.clone(), &hasher).unwrap();
    assert_eq!(genesis_block.hash(&hasher), new_block.header.prev_hash);
    assert_eq!(new_block.txs.len(), 1);
    assert!(engine.validate(&genesis_block, &new_block));

    let mut strict = Engine::new(Box::new(CorrectlyMinedBlockMiner), Box::new(RejectEvery), difficulty);
    assert!(strict.mine(vec![], genesis_block.clone(), &hasher).is_none());
    assert!(!strict.validate(&genesis_block, &new_block));
}
