use block_relay::blocks::{Blocks, Environment, NetworkError, VerifyResult};
use block_relay::chain::{Ledger, StoredBlock};
use block_relay::message::{Addr, Block, BlockHeaderHash, Request, Transaction};
use block_relay::outbound::Outbound;
use block_relay::pool::{Entry, MemoryPool, ParsedTransaction, TransactionId};

fn addr(i: u64) -> Addr {
    Addr { id: i }
}

fn hash(i: u64) -> BlockHeaderHash {
    BlockHeaderHash { id: i }
}

fn tx(id: u64, value_balance: i64) -> ParsedTransaction {
    ParsedTransaction { id: TransactionId { id }, value_balance }
}

/// A node with local address 1 whose chain has blocks at heights 0..=tip,
/// the block at height h carrying hash 100 + h and data [h as u8].
fn node_at_height(tip: u64) -> Blocks {
    let mut blocks: Vec<StoredBlock> = Vec::new();
    for h in 0..=tip {
        blocks.push(StoredBlock { hash: hash(100 + h), data: vec![h as u8] });
    }
    let env = Environment::new(addr(1), false, Ledger { blocks }, MemoryPool::new());
    Blocks::new(env, Outbound::new()).unwrap()
}

#[test]
fn propagate_block_excludes_miner_and_self() {
    let mut node = node_at_height(0);
    let peers = vec![addr(2), addr(3), addr(1), addr(4)];
    node.propagate_block(vec![9], addr(3), &peers).unwrap();
    assert_eq!(
        node.outbound.requests,
        vec![
            Request::Block(addr(2), Block { data: vec![9] }),
            Request::Block(addr(4), Block { data: vec![9] }),
        ]
    );
}

#[test]
fn propagate_transaction_excludes_sender_and_self() {
    let mut node = node_at_height(0);
    let peers = vec![addr(5), addr(1), addr(6)];
    node.propagate_transaction(vec![8, 7], addr(5), &peers).unwrap();
    assert_eq!(
        node.outbound.requests,
        vec![Request::Transaction(addr(6), Transaction { bytes: vec![8, 7] })]
    );
}

#[test]
fn received_transaction_valid_inserts_and_relays() {
    let mut node = node_at_height(0);
    let peers = vec![addr(5), addr(2)];
    node.received_transaction(
        addr(5),
        Transaction { bytes: vec![1, 2, 3] },
        peers,
        Some(tx(7, -5)),
        VerifyResult::Valid,
    )
    .unwrap();
    assert_eq!(node.environment.memory_pool.entries.len(), 1);
    let entry = &node.environment.memory_pool.entries[0];
    assert_eq!(entry.transaction, tx(7, -5));
    assert_eq!(entry.size_in_bytes, 3);
    assert_eq!(entry.serialized, vec![1, 2, 3]);
    assert_eq!(
        node.outbound.requests,
        vec![Request::Transaction(addr(2), Transaction { bytes: vec![1, 2, 3] })]
    );
}

#[test]
fn received_transaction_coinbase_shape_dropped() {
    let mut node = node_at_height(0);
    let r = node.received_transaction(
        addr(5),
        Transaction { bytes: vec![1] },
        vec![addr(2)],
        Some(tx(7, 0)),
        VerifyResult::Valid,
    );
    assert_eq!(r, Ok(()));
    assert_eq!(node.environment.memory_pool.entries.len(), 0);
    assert!(node.outbound.requests.is_empty());
}

#[test]
fn received_transaction_invalid_dropped() {
    let mut node = node_at_height(0);
    let r = node.received_transaction(
        addr(5),
        Transaction { bytes: vec![1] },
        vec![addr(2)],
        Some(tx(7, -1)),
        VerifyResult::Invalid,
    );
    assert_eq!(r, Ok(()));
    assert_eq!(node.environment.memory_pool.entries.len(), 0);
    assert!(node.outbound.requests.is_empty());
}

#[test]
fn received_transaction_engine_failure_is_error() {
    let mut node = node_at_height(0);
    let r = node.received_transaction(
        addr(5),
        Transaction { bytes: vec![1] },
        vec![addr(2)],
        Some(tx(7, -1)),
        VerifyResult::Failed,
    );
    assert_eq!(r, Err(NetworkError::TransactionVerification));
    assert_eq!(node.environment.memory_pool.entries.len(), 0);
    assert!(node.outbound.requests.is_empty());
}

#[test]
fn received_transaction_unparseable_is_silent() {
    let mut node = node_at_height(0);
    let r = node.received_transaction(
        addr(5),
        Transaction { bytes: vec![255, 255] },
        vec![addr(2)],
        None,
        VerifyResult::Valid,
    );
    assert_eq!(r, Ok(()));
    assert_eq!(node.environment.memory_pool.entries.len(), 0);
    assert!(node.outbound.requests.is_empty());
}

#[test]
fn received_transaction_duplicate_not_relayed() {
    let mut node = node_at_height(0);
    node.received_transaction(
        addr(5),
        Transaction { bytes: vec![1] },
        vec![addr(2)],
        Some(tx(7, -1)),
        VerifyResult::Valid,
    )
    .unwrap();
    assert_eq!(node.outbound.requests.len(), 1);
    node.received_transaction(
        addr(6),
        Transaction { bytes: vec![1] },
        vec![addr(2), addr(3)],
        Some(tx(7, -1)),
        VerifyResult::Valid,
    )
    .unwrap();
    assert_eq!(node.environment.memory_pool.entries.len(), 1);
    assert_eq!(node.outbound.requests.len(), 1);
}

#[test]
fn memory_pool_insert_reports_duplicate() {
    let mut pool = MemoryPool::new();
    let entry = Entry { size_in_bytes: 1, transaction: tx(9, -2), serialized: vec![4] };
    assert_eq!(pool.insert(entry.clone()), Some(TransactionId { id: 9 }));
    assert_eq!(pool.insert(entry), None);
    assert_eq!(pool.entries.len(), 1);
}

#[test]
fn received_get_memory_pool_empty_sends_nothing() {
    let mut node = node_at_height(0);
    node.received_get_memory_pool(addr(2)).unwrap();
    assert!(node.outbound.requests.is_empty());
}

#[test]
fn received_get_memory_pool_batches_all() {
    let mut node = node_at_height(0);
    node.environment
        .memory_pool
        .insert(Entry { size_in_bytes: 2, transaction: tx(7, -1), serialized: vec![1, 2] });
    node.environment
        .memory_pool
        .insert(Entry { size_in_bytes: 1, transaction: tx(8, -3), serialized: vec![3] });
    node.received_get_memory_pool(addr(2)).unwrap();
    assert_eq!(
        node.outbound.requests,
        vec![Request::MemoryPool(
            addr(2),
            block_relay::message::MemoryPool { transactions: vec![vec![1, 2], vec![3]] }
        )]
    );
}

#[test]
fn received_memory_pool_inserts_all() {
    let mut node = node_at_height(0);
    let message = block_relay::message::MemoryPool { transactions: vec![vec![1, 2], vec![3]] };
    let parsed = vec![Some(tx(7, -1)), Some(tx(8, -3))];
    assert_eq!(node.received_memory_pool(message, parsed), Ok(()));
    let entries = &node.environment.memory_pool.entries;
    assert_eq!(entries.len(), 2);
    assert_eq!(entries[0].transaction, tx(7, -1));
    assert_eq!(entries[0].size_in_bytes, 2);
    assert_eq!(entries[0].serialized, vec![1, 2]);
    assert_eq!(entries[1].transaction, tx(8, -3));
    assert!(node.outbound.requests.is_empty());
}

#[test]
fn received_memory_pool_aborts_on_bad_entry() {
    let mut node = node_at_height(0);
    let message =
        block_relay::message::MemoryPool { transactions: vec![vec![1], vec![2], vec![3]] };
    let parsed = vec![Some(tx(7, -1)), None, Some(tx(8, -3))];
    assert_eq!(
        node.received_memory_pool(message, parsed),
        Err(NetworkError::TransactionDecode)
    );
    let entries = &node.environment.memory_pool.entries;
    assert_eq!(entries.len(), 1);
    assert_eq!(entries[0].transaction, tx(7, -1));
}

#[test]
fn received_memory_pool_skips_duplicates() {
    let mut node = node_at_height(0);
    let message = block_relay::message::MemoryPool { transactions: vec![vec![1], vec![1]] };
    let parsed = vec![Some(tx(7, -1)), Some(tx(7, -1))];
    assert_eq!(node.received_memory_pool(message, parsed), Ok(()));
    assert_eq!(node.environment.memory_pool.entries.len(), 1);
}
