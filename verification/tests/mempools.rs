use blockchain_p2p::consensus_engine::transaction::Transaction;
use blockchain_p2p::mempool::{Mempool, MempoolError, MempoolTrait, MAX_MEMPOOL_SIZE};

fn tx(from: &str, to: &str, amount: u64, sig: &str) -> Transaction {
    Transaction::new(from.into(), to.into(), amount, sig.into())
}

#[test]
fn add_returns_the_id_and_refuses_duplicates() {
    let mut pool = Mempool::new();
    let t = tx("0xAlice", "0xBob", 50, "sig1");
    let id = pool.add_transaction(t.clone()).unwrap();
    assert_eq!(id, t.tx_id());
    assert_eq!(id.len(), 64);
    assert_eq!(pool.get_size(), 1);
    assert_eq!(pool.add_transaction(t.clone()), Err(MempoolError::Duplicate));
    assert_eq!(pool.get_size(), 1);
}

#[test]
fn invalid_transactions_are_refused_with_the_rule() {
    let mut pool = Mempool::default();
    let cases = [
        (tx("", "b", 1, "s"), "'from' vacío"),
        (tx("a", "", 1, "s"), "'to' vacío"),
        (tx("a", "a", 1, "s"), "'from' y 'to' iguales"),
        (tx("a", "b", 0, "s"), "monto cero"),
        (tx("a", "b", 1, ""), "firma vacía"),
    ];
    for (t, reason) in cases {
        assert_eq!(pool.add_transaction(t.clone()), Err(MempoolError::InvalidTransaction(reason.to_string())));
        assert_eq!(Mempool::validate(&t), Err(MempoolError::InvalidTransaction(reason.to_string())));
    }
    assert_eq!(pool.get_size(), 0);
    assert_eq!(Mempool::validate(&tx("a", "b", 1, "s")), Ok(()));
}

#[test]
fn a_full_pool_refuses() {
    let mut pool = Mempool::with_max_size(2);
    pool.add_transaction(tx("a", "b", 1, "s")).unwrap();
    pool.add_transaction(tx("a", "b", 2, "s")).unwrap();
    assert_eq!(pool.add_transaction(tx("a", "b", 3, "s")), Err(MempoolError::Full));
    assert_eq!(pool.add_transaction(tx("a", "b", 1, "s")), Err(MempoolError::Full));
    assert_eq!(pool.add_transaction(tx("", "b", 1, "s")), Err(MempoolError::InvalidTransaction("'from' vacío".into())));
    assert_eq!(Mempool::new().get_size(), 0);
    assert_eq!(MAX_MEMPOOL_SIZE, 100);
}

#[test]
fn error_messages() {
    assert_eq!(MempoolError::Full.message(), "Mempool llena");
    assert_eq!(MempoolError::Duplicate.message(), "Transacción duplicada");
    assert_eq!(MempoolError::InvalidTransaction("monto cero".into()).message(), "Transacción inválida: monto cero");
}

#[test]
fn block_selection_keeps_order_and_leaves_the_pool() {
    let mut pool = Mempool::new();
    let a = tx("a", "b", 1, "s");
    let b = tx("a", "b", 2, "s");
    let c = tx("a", "b", 3, "s");
    pool.add_transaction(a.clone()).unwrap();
    pool.add_transaction(b.clone()).unwrap();
    pool.add_transaction(c.clone()).unwrap();
    let picked = pool.get_transactions_for_block(2);
    assert_eq!(picked.iter().map(|t| t.amount).collect::<Vec<_>>(), vec![1, 2]);
    assert_eq!(pool.get_transactions_for_block(10).len(), 3);
    assert_eq!(pool.get_size(), 3);
    pool.remove_transactions(&[b.clone(), tx("x", "y", 9, "s")]);
    let left = pool.get_transactions_for_block(10);
    assert_eq!(left.iter().map(|t| t.amount).collect::<Vec<_>>(), vec![1, 3]);
    pool.remove_transactions(&[a, c]);
    assert_eq!(pool.get_size(), 0);
}

#[test]
fn remove_undoes_add() {
    let mut pool = Mempool::new();
    pool.add_transaction(tx("a", "b", 1, "s")).unwrap();
    let t = tx("c", "d", 2, "s");
    pool.add_transaction(t.clone()).unwrap();
    pool.remove_transactions(&[t]);
    let left = pool.get_transactions_for_block(10);
    assert_eq!(left.len(), 1);
    assert_eq!(left[0].amount, 1);
}

#[test]
fn trait_view_of_the_pool() {
    let mut pool = Mempool::new();
    MempoolTrait::add_transaction_to_mempool(&mut pool, &tx("a", "b", 1, "s"));
    MempoolTrait::add_transaction_to_mempool(&mut pool, &tx("a", "b", 1, "s"));
    MempoolTrait::add_transaction_to_mempool(&mut pool, &tx("a", "a", 1, "s"));
    assert_eq!(MempoolTrait::get_pending_transactions(&pool).len(), 1);
    assert_eq!(MempoolTrait::get_transactions(&pool).len(), 1);
    MempoolTrait::remove_transactions(&mut pool, &vec![tx("a", "b", 1, "s")]);
    assert_eq!(pool.get_size(), 0);
    pool.clear_invalid_transactions();
    assert_eq!(pool.get_size(), 0);
}
