use blockchain_p2p::common::types::Tx;
use blockchain_p2p::mempool::types::mempool::{Mempool, UtxoSet};

#[test]
fn mempool() {
    let mut mempool = Mempool::default();
    assert!(mempool.get_first_n(1).is_empty());
    mempool.push(Tx::new(vec![], vec![]), &UtxoSet::new());
    assert!(!mempool.get_first_n(1).is_empty());
    assert!(mempool.get_first_n(1).is_empty());
}
