use block_relay::blocks::{BlockStatus, Blocks, Environment, NetworkError};
use block_relay::chain::{Ledger, StoredBlock};
use block_relay::message::{
    Addr, Block, BlockHeaderHash, GetBlock, GetSync, Request, SyncBlock, SyncReply,
};
use block_relay::outbound::Outbound;
use block_relay::pool::MemoryPool;

fn addr(i: u64) -> Addr {
    Addr { id: i }
}

fn hash(i: u64) -> BlockHeaderHash {
    BlockHeaderHash { id: i }
}

/// A node with local address 1 whose chain has blocks at heights 0..=tip,
/// the block at height h carrying hash 100 + h and data [h as u8].
fn node_at_height(tip: u64) -> Blocks {
    let mut blocks: Vec<StoredBlock> = Vec::new();
    for h in 0..=tip {
        blocks.push(StoredBlock { hash: hash(100 + h), data: vec![h as u8] });
    }
    let env = Environment::new(addr(1), false, Ledger { blocks }, MemoryPool::new());
    Blocks::new(env, Outbound::new()).unwrap()
}

#[test]
fn new_and_local_address() {
    let node = node_at_height(0);
    assert_eq!(node.local_address(), addr(1));
    assert!(node.outbound.requests.is_empty());
}

#[test]
fn update_sends_getsync_with_locators() {
    let mut node = node_at_height(2);
    node.update(Some(addr(9))).unwrap();
    assert_eq!(
        node.outbound.requests,
        vec![Request::GetSync(
            addr(9),
            GetSync { block_locator_hashes: vec![hash(102), hash(101), hash(100)] }
        )]
    );
}

#[test]
fn update_without_sync_node_sends_nothing() {
    let mut node = node_at_height(2);
    node.update(None).unwrap();
    assert!(node.outbound.requests.is_empty());
}

#[test]
fn update_bootnode_sends_nothing() {
    let env = Environment::new(
        addr(1),
        true,
        Ledger::new(hash(100), vec![0]),
        MemoryPool::new(),
    );
    let mut node = Blocks::new(env, Outbound::new()).unwrap();
    node.update(Some(addr(9))).unwrap();
    assert!(node.outbound.requests.is_empty());
}

#[test]
fn received_block_decode_failure_is_error() {
    let node = node_at_height(0);
    let r = node.received_block(addr(2), &Block { data: vec![255] }, None);
    assert_eq!(r, Err(NetworkError::BlockDecode));
}

#[test]
fn received_block_known_hash_already_known() {
    let node = node_at_height(3);
    let r = node.received_block(addr(2), &Block { data: vec![2] }, Some(hash(102)));
    assert_eq!(r, Ok(BlockStatus::AlreadyKnown));
}

#[test]
fn received_block_new_hash_needs_validation() {
    let node = node_at_height(3);
    let r = node.received_block(addr(2), &Block { data: vec![7] }, Some(hash(200)));
    assert_eq!(r, Ok(BlockStatus::NeedsValidation));
}

#[test]
fn block_validated_accepted_persists_and_relays() {
    let mut node = node_at_height(0);
    node.block_validated(
        addr(3),
        Block { data: vec![7] },
        hash(200),
        true,
        Some(vec![addr(3), addr(2)]),
    )
    .unwrap();
    assert_eq!(node.environment.storage.blocks.len(), 2);
    assert_eq!(node.environment.storage.blocks[1].hash, hash(200));
    assert_eq!(node.environment.storage.blocks[1].data, vec![7]);
    assert_eq!(
        node.outbound.requests,
        vec![Request::Block(addr(2), Block { data: vec![7] })]
    );
}

#[test]
fn block_validated_rejected_swallowed() {
    let mut node = node_at_height(0);
    let r = node.block_validated(
        addr(3),
        Block { data: vec![7] },
        hash(200),
        false,
        Some(vec![addr(2)]),
    );
    assert_eq!(r, Ok(()));
    assert_eq!(node.environment.storage.blocks.len(), 1);
    assert!(node.outbound.requests.is_empty());
}

#[test]
fn block_validated_without_directory_no_relay() {
    let mut node = node_at_height(0);
    node.block_validated(addr(3), Block { data: vec![7] }, hash(200), true, None)
        .unwrap();
    assert_eq!(node.environment.storage.blocks.len(), 2);
    assert!(node.outbound.requests.is_empty());
}

#[test]
fn received_block_twice_single_validation() {
    let mut node = node_at_height(0);
    let envelope = Block { data: vec![7] };
    let peers = vec![addr(3), addr(2)];

    // first arrival: the block is new, so it goes to the consensus engine
    let first = node.received_block(addr(3), &envelope, Some(hash(200)));
    assert_eq!(first, Ok(BlockStatus::NeedsValidation));
    node.block_validated(addr(3), envelope.clone(), hash(200), true, Some(peers.clone()))
        .unwrap();
    assert_eq!(node.environment.storage.blocks.len(), 2);
    assert_eq!(node.outbound.requests.len(), 1);

    // second arrival of the same envelope: deduplicated by the existence
    // check, so nothing is validated or relayed again
    let second = node.received_block(addr(3), &envelope, Some(hash(200)));
    assert_eq!(second, Ok(BlockStatus::AlreadyKnown));
    assert_eq!(node.environment.storage.blocks.len(), 2);
    assert_eq!(node.outbound.requests.len(), 1);
}

#[test]
fn received_get_block_found() {
    let mut node = node_at_height(2);
    node.received_get_block(addr(2), GetBlock { block_hash: hash(101) })
        .unwrap();
    assert_eq!(
        node.outbound.requests,
        vec![Request::SyncBlock(addr(2), SyncBlock { data: vec![1] })]
    );
}

#[test]
fn received_get_block_missing_silent() {
    let mut node = node_at_height(2);
    let r = node.received_get_block(addr(2), GetBlock { block_hash: hash(999) });
    assert_eq!(r, Ok(()));
    assert!(node.outbound.requests.is_empty());
}

#[test]
fn received_sync_empty_no_requests() {
    let mut node = node_at_height(0);
    let r = node.received_sync(addr(2), SyncReply { block_hashes: vec![] });
    assert_eq!(r, Ok(()));
    assert!(node.outbound.requests.is_empty());
}

#[test]
fn received_sync_fetches_each() {
    let mut node = node_at_height(0);
    node.received_sync(addr(2), SyncReply { block_hashes: vec![hash(201), hash(202)] })
        .unwrap();
    assert_eq!(
        node.outbound.requests,
        vec![
            Request::GetBlock(addr(2), GetBlock { block_hash: hash(201) }),
            Request::GetBlock(addr(2), GetBlock { block_hash: hash(202) }),
        ]
    );
}

#[test]
fn received_get_sync_caught_up_empty_reply() {
    let mut node = node_at_height(10);
    node.received_get_sync(addr(2), GetSync { block_locator_hashes: vec![hash(110)] })
        .unwrap();
    assert_eq!(
        node.outbound.requests,
        vec![Request::SyncReply(addr(2), SyncReply { block_hashes: vec![] })]
    );
}

#[test]
fn received_get_sync_two_behind() {
    let mut node = node_at_height(12);
    node.received_get_sync(addr(2), GetSync { block_locator_hashes: vec![hash(110)] })
        .unwrap();
    assert_eq!(
        node.outbound.requests,
        vec![Request::SyncReply(
            addr(2),
            SyncReply { block_hashes: vec![hash(111), hash(112)] }
        )]
    );
}

#[test]
fn received_get_sync_locator_order_prefers_recent() {
    let mut node = node_at_height(10);
    node.received_get_sync(
        addr(2),
        GetSync { block_locator_hashes: vec![hash(105), hash(103)] },
    )
    .unwrap();
    let expected: Vec<BlockHeaderHash> = (106..=110).map(hash).collect();
    assert_eq!(
        node.outbound.requests,
        vec![Request::SyncReply(addr(2), SyncReply { block_hashes: expected })]
    );
}

#[test]
fn received_get_sync_caps_reply_at_4000() {
    let mut node = node_at_height(5000);
    node.received_get_sync(addr(2), GetSync { block_locator_hashes: vec![hash(100)] })
        .unwrap();
    assert_eq!(node.outbound.requests.len(), 1);
    match &node.outbound.requests[0] {
        Request::SyncReply(to, reply) => {
            assert_eq!(*to, addr(2));
            assert_eq!(reply.block_hashes.len(), 4000);
            assert_eq!(reply.block_hashes[0], hash(101));
            assert_eq!(reply.block_hashes[3999], hash(4100));
        }
        other => panic!("expected a sync reply, got {:?}", other),
    }
}

#[test]
fn received_get_sync_no_shared_hash_is_error() {
    let mut node = node_at_height(2);
    let r = node.received_get_sync(addr(2), GetSync { block_locator_hashes: vec![hash(999)] });
    assert_eq!(r, Err(NetworkError::NoSharedHash));
    assert!(node.outbound.requests.is_empty());
}
