use blockchain_p2p::common::types::{Block as UtxoBlock, BlockHeader, Tx as UtxoTx};
use blockchain_p2p::consensus_engine::block::Block;
use blockchain_p2p::consensus_engine::network_adapter::{Message, NetworkAdapter};
use blockchain_p2p::consensus_engine::ports::MinerCommand as EngineMinerCommand;
use blockchain_p2p::consensus_engine::storage::InMemoryStorage;
use blockchain_p2p::consensus_engine::traits::{Network, Storage};
use blockchain_p2p::consensus_engine::transaction::Transaction;
use blockchain_p2p::consensus_engine::types::{plan_block_found, plan_engine_command, ConsensusEngineCommand, ConsensusEngineError, MinerState as EngineMinerState, Tx};
use blockchain_p2p::events::{EventSink, NodeEvent};
use blockchain_p2p::mining_pool::miner::{MinerCommand, MinerState};
use blockchain_p2p::mining_pool::pool::{plan_block_found as pool_block_found, plan_command, MiningPoolCommand, MiningPoolError};

fn utxo_block(nonce: u64) -> UtxoBlock {
    UtxoBlock {
        header: BlockHeader { version: 1, prev_hash: blockchain_p2p::common::types::Hash::zero(), nonce, merkle_root: blockchain_p2p::common::types::Hash::zero(), timestamp: 9 },
        txs: vec![UtxoTx::new(vec![], vec![])],
    }
}

#[test]
fn transaction_bytes_match_bincode() {
    let t = Transaction::new("0xAlice".into(), "0xBob".into(), 50, "sig1".into());
    let expected = bincode::serialize(&("0xAlice", "0xBob", 50u64, "sig1")).unwrap();
    assert_eq!(t.to_bytes(), expected);
    let other = Tx::new("0xAlice".into(), "0xBob".into(), 50, "sig1".into());
    assert_eq!(other.to_bytes(), expected);
    assert_eq!(t.tx_id().len(), 64);
    assert_eq!(t.debug_text(), format!("{:?}", t));
}

#[test]
fn storage_keeps_blocks_in_order() {
    let mut s = InMemoryStorage::new();
    let probe = Block::new_at(0, vec![], "".into(), 1);
    assert!(s.get_last_block().is_none());
    assert!(s.get_block(&probe).is_none());
    let a = Block::new_at(0, vec![], "".into(), 1);
    let b = Block::new_at(1, vec![], a.hash.clone(), 2);
    s.save(&a);
    s.save(&b);
    assert_eq!(s.get_last_block().unwrap().hash, b.hash);
    assert_eq!(s.get_block(&a).unwrap().index, 0);
    assert_eq!(s.get_chain(&a).len(), 2);
    let c = Block::new_at(7, vec![], "x".into(), 3);
    let returned = s.replace_chain(a.clone(), vec![c.clone()]);
    assert_eq!(returned.len(), 1);
    assert_eq!(s.get_chain(&a).len(), 1);
    assert_eq!(s.get_last_block().unwrap().index, 7);
    assert!(s.get_block(&a).is_none());
}

#[test]
fn network_adapter_queues_messages() {
    let mut n = NetworkAdapter::new();
    let a = Block::new_at(0, vec![], "".into(), 1);
    n.broadcast_block(&a);
    n.broadcast_chain(vec![a.clone()]);
    let sent = n.take_messages();
    assert_eq!(sent.len(), 2);
    assert!(matches!(&sent[0], Message::Block(b) if b.hash == a.hash));
    assert!(matches!(&sent[1], Message::Chain(c) if c.len() == 1));
    assert!(n.take_messages().is_empty());
}

#[test]
fn mining_pool_start_plan() {
    let p = plan_command(MiningPoolCommand::StartMining(utxo_block(99), 3), 1, 4);
    assert_eq!(p.before.len(), 1);
    assert!(matches!(p.before[0], (0, MinerCommand::Stop)));
    assert_eq!(p.spawn, 2);
    assert_eq!(p.after.len(), 3);
    for (i, (w, c)) in p.after.iter().enumerate() {
        assert_eq!(*w, i);
        match c {
            MinerCommand::Start { block, difficulty, worker_id, num_workers } => {
                assert_eq!(block.header.nonce, i as u64);
                assert_eq!(block.header.timestamp, 9);
                assert_eq!(block.txs.len(), 1);
                assert_eq!(*difficulty, 4);
                assert_eq!(*worker_id, i);
                assert_eq!(*num_workers, 3);
            }
            _ => panic!("expected a start"),
        }
    }
    let fewer = plan_command(MiningPoolCommand::StartMining(utxo_block(0), 1), 2, 4);
    assert_eq!(fewer.spawn, 0);
    assert_eq!(fewer.after.len(), 2);
    let pause = plan_command(MiningPoolCommand::PauseMining, 2, 4);
    assert!(matches!(pause.before[..], [(0, MinerCommand::Pause), (1, MinerCommand::Pause)]));
    assert!(pause.after.is_empty());
    let resume = plan_command(MiningPoolCommand::ResumeMining, 1, 4);
    assert!(matches!(resume.before[..], [(0, MinerCommand::Resume)]));
    let stop = plan_command(MiningPoolCommand::StopMining, 0, 4);
    assert!(stop.before.is_empty() && stop.spawn == 0);
}

#[test]
fn engine_plans() {
    let p = plan_engine_command(ConsensusEngineCommand::StartMining(utxo_block(5), 2), 0, 3);
    assert!(p.before.is_empty());
    assert_eq!(p.spawn, 2);
    assert!(matches!(&p.after[1], (1, EngineMinerCommand::Start { worker_id: 1, num_workers: 2, difficulty: 3, .. })));
    assert!(p.validate.is_none());
    let v = plan_engine_command(ConsensusEngineCommand::ValidateBlock(utxo_block(1), utxo_block(2)), 4, 3);
    assert!(v.before.is_empty() && v.after.is_empty() && v.spawn == 0);
    let (b, prev) = v.validate.unwrap();
    assert_eq!(b.header.nonce, 1);
    assert_eq!(prev.header.nonce, 2);
    let s = plan_engine_command(ConsensusEngineCommand::StopMining, 2, 3);
    assert!(matches!(s.before[..], [(0, EngineMinerCommand::Stop), (1, EngineMinerCommand::Stop)]));
}

#[test]
fn states_errors_and_events() {
    assert_eq!(MinerState::Mining.name(), "Mining");
    assert_eq!(MinerState::Paused.name(), "Paused");
    assert_eq!(MinerState::default().name(), "Stopped");
    assert!(matches!(EngineMinerState::default(), EngineMinerState::Stopped));
    assert!(matches!(MiningPoolError::from("x".to_string()), MiningPoolError::MinerError(m) if m == "x"));
    assert!(matches!(ConsensusEngineError::from("y".to_string()), ConsensusEngineError::MinerError(m) if m == "y"));
    let mut sink = EventSink::new();
    sink.send(NodeEvent::Quit);
    sink.send(NodeEvent::NewBlock(utxo_block(0)));
    let got = sink.drain();
    assert_eq!(got.len(), 2);
    assert!(matches!(got[0], NodeEvent::Quit));
    assert!(sink.drain().is_empty());
}

#[test]
fn found_block_stops_every_worker() {
    assert!(matches!(plan_block_found(2)[..], [(0, EngineMinerCommand::Stop), (1, EngineMinerCommand::Stop)]));
    assert!(plan_block_found(0).is_empty());
    assert!(matches!(pool_block_found(1)[..], [(0, MinerCommand::Stop)]));
}
