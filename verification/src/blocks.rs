//! The block service: relay engine, ingestion handlers, and sync negotiator.
//!
//! Each handler reads and writes the shared node context, decides, and
//! enqueues addressed requests on the outbound queue. Work only the external
//! collaborators can do — decoding a block or transaction, cryptographic
//! validation by the consensus engine — reaches a handler as a plain value:
//! the handler is then verified for every outcome the collaborator can hand
//! back.

use vstd::prelude::*;

use crate::chain::{
    chain_data, chain_has, first_shared, height_of, lemma_first_shared, locator_hashes, Ledger,
    StoredBlockV,
};
use crate::message::{
    Addr, Block, BlockHeaderHash, GetBlock, GetSync, MemoryPool, Request, RequestV, SyncBlock,
    SyncReply, Transaction,
};
use crate::outbound::Outbound;
use crate::pool::{pool_has, pool_insert, Entry, EntryV, ParsedTransaction};

verus! {

/// The peers a fan-out reaches: every listed peer except the originator of
/// the payload and this node itself, in directory order.
pub open spec fn fanout_targets(peers: Seq<Addr>, origin: Addr, local: Addr) -> Seq<Addr>
    decreases peers.len(),
{
    if peers.len() == 0 {
        Seq::empty()
    } else {
        let rest = fanout_targets(peers.drop_last(), origin, local);
        let a = peers.last();
        if a != origin && a != local {
            rest.push(a)
        } else {
            rest
        }
    }
}

/// The requests a block fan-out enqueues.
pub open spec fn block_fanout(
    peers: Seq<Addr>,
    origin: Addr,
    local: Addr,
    data: Seq<u8>,
) -> Seq<RequestV> {
    fanout_targets(peers, origin, local).map(
        |i: int, a: Addr| RequestV::Block { receiver: a, data },
    )
}

/// The requests a transaction fan-out enqueues.
pub open spec fn transaction_fanout(
    peers: Seq<Addr>,
    origin: Addr,
    local: Addr,
    bytes: Seq<u8>,
) -> Seq<RequestV> {
    fanout_targets(peers, origin, local).map(
        |i: int, a: Addr| RequestV::Transaction { receiver: a, bytes },
    )
}

/// The follow-up fetches a sync reply triggers: one `GetBlock` per hash,
/// in reply order.
pub open spec fn getblock_requests(remote: Addr, hashes: Seq<BlockHeaderHash>) -> Seq<RequestV> {
    hashes.map(|i: int, h: BlockHeaderHash| RequestV::GetBlock { receiver: remote, block_hash: h })
}

/// The chain after the consensus engine's verdict on one block is applied:
/// an accepted block whose hash is new is appended at the next height;
/// a known hash or a rejected block leaves the chain as it is.
pub open spec fn block_admission(
    c: Seq<StoredBlockV>,
    h: BlockHeaderHash,
    data: Seq<u8>,
    accepted: bool,
) -> Seq<StoredBlockV> {
    if !chain_has(c, h) && accepted {
        c.push(StoredBlockV { hash: h, data })
    } else {
        c
    }
}

/// The serialized bytes of every pooled entry, in pool order.
pub open spec fn pool_serialized(p: Seq<EntryV>) -> Seq<Seq<u8>> {
    p.map(|i: int, e: EntryV| e.serialized)
}

/// The pool entry a batch ingestion builds from one serialized transaction
/// and what its decoder recovered.
pub open spec fn batch_entry(bytes: Seq<u8>, tx: ParsedTransaction) -> EntryV {
    EntryV { size_in_bytes: bytes.len() as usize, transaction: tx, serialized: bytes }
}

/// Whether every transaction of a batch decoded.
pub open spec fn batch_ok(parsed: Seq<Option<ParsedTransaction>>) -> bool {
    forall|i: int| 0 <= i < parsed.len() ==> parsed[i] is Some
}

/// The pool after ingesting a batch of serialized transactions front to
/// back: each decoded entry is inserted in turn, and the first entry that
/// fails to decode aborts the rest of the batch.
pub open spec fn batch_pool(
    pool: Seq<EntryV>,
    txs: Seq<Seq<u8>>,
    parsed: Seq<Option<ParsedTransaction>>,
) -> Seq<EntryV>
    decreases txs.len(),
{
    if txs.len() == 0 {
        pool
    } else {
        match parsed[0] {
            None => pool,
            Some(p) => batch_pool(
                pool_insert(pool, batch_entry(txs[0], p)),
                txs.skip(1),
                parsed.skip(1),
            ),
        }
    }
}

/// The hashes a sync reply carries for a requester whose latest shared
/// block sits at `shared_height`: the hashes of the next blocks after it,
/// oldest first, capped at 4000 even when the requester is further behind,
/// and none at all when the shared height already is the tip.
pub open spec fn sync_range(c: Seq<StoredBlockV>, shared_height: int) -> Seq<BlockHeaderHash> {
    let tip = c.len() - 1;
    if shared_height < tip {
        let stop = if shared_height + 4000 < tip {
            shared_height + 4000
        } else {
            tip
        };
        Seq::new((stop - shared_height) as nat, |i: int| c[shared_height + 1 + i].hash)
    } else {
        Seq::empty()
    }
}

/// What phase one of block ingestion decides: whether the consensus engine
/// is to validate the block at all. A hash storage already has is neither
/// re-validated nor re-relayed.
#[derive(Clone, Copy, PartialEq, Eq, Debug, Structural)]
pub enum BlockStatus {
    /// Storage already has the block: the envelope is a duplicate no-op.
    AlreadyKnown,
    /// The block is new: hand it to the consensus engine, then report the
    /// verdict through `block_validated`.
    NeedsValidation,
}

/// The consensus engine's answer when asked to verify a transaction.
#[derive(Clone, Copy, PartialEq, Eq, Debug, Structural)]
pub enum VerifyResult {
    /// The transaction verified.
    Valid,
    /// The transaction is invalid: an expected adversarial outcome, dropped
    /// silently.
    Invalid,
    /// The engine itself failed: a local fault, surfaced to the caller.
    Failed,
}

/// The errors a handler surfaces to its caller. Everything else — an invalid
/// block, a rejected or duplicate transaction, a lookup miss — is an
/// expected peer-to-peer condition and is swallowed as a no-op.
#[derive(Clone, Copy, PartialEq, Eq, Debug, Structural)]
pub enum NetworkError {
    /// The block envelope could not be decoded.
    BlockDecode,
    /// A transaction in a pool batch could not be decoded.
    TransactionDecode,
    /// The consensus engine failed while verifying a transaction.
    TransactionVerification,
    /// No locator hash is shared with the requester's chain.
    NoSharedHash,
}

/// The shared node context: the node's identity and role, its chain
/// storage, and its pending-transaction pool.
#[derive(Clone, Debug, PartialEq, Eq)]
pub struct Environment {
    pub local_address: Addr,
    pub is_bootnode: bool,
    pub storage: Ledger,
    pub memory_pool: crate::pool::MemoryPool,
}

impl Environment {
    pub fn new(
        local_address: Addr,
        is_bootnode: bool,
        storage: Ledger,
        memory_pool: crate::pool::MemoryPool,
    ) -> (r: Environment)
        ensures
            r == (Environment { local_address, is_bootnode, storage, memory_pool }),
    {
        Environment { local_address, is_bootnode, storage, memory_pool }
    }
}

/// A stateful component for managing the blocks for the ledger on this node.
pub struct Blocks {
    /// The parameters and settings of this node.
    pub environment: Environment,
    /// The outbound handler of this node.
    pub outbound: Outbound,
}

impl Blocks {
    /// Well-formed service state: well-formed chain storage and pool.
    pub open spec fn wf(&self) -> bool {
        &&& self.environment.storage.wf()
        &&& self.environment.memory_pool.wf()
    }

    /// Creates a new instance of `Blocks`.
    pub fn new(environment: Environment, outbound: Outbound) -> (r: Result<Blocks, NetworkError>)
        ensures
            r is Ok,
            r.unwrap() == (Blocks { environment, outbound }),
    {
        Ok(Blocks { environment, outbound })
    }

    /// The local address of this node.
    pub fn local_address(&self) -> (r: Addr)
        ensures
            r == self.environment.local_address,
    {
        self.environment.local_address
    }

    /// This node's address, for contracts.
    pub open spec fn addr(self) -> Addr {
        self.environment.local_address
    }

    /// The canonical chain, for contracts.
    pub open spec fn chain(self) -> Seq<StoredBlockV> {
        self.environment.storage@
    }

    /// The pooled entries, for contracts.
    pub open spec fn pool(self) -> Seq<EntryV> {
        self.environment.memory_pool@
    }

    /// Everything enqueued outbound so far, for contracts.
    pub open spec fn sent(self) -> Seq<RequestV> {
        self.outbound@
    }

    /// The node's identity and role are fixed: no handler changes them.
    pub open spec fn same_config(self, o: Blocks) -> bool {
        &&& self.environment.local_address == o.environment.local_address
        &&& self.environment.is_bootnode == o.environment.is_bootnode
    }

    /// Broadcasts updates with connected peers: a non-bootnode with a
    /// registered sync node sends it a `GetSync` carrying this node's
    /// locator hashes; otherwise nothing goes out.
    pub fn update(&mut self, sync_node: Option<Addr>) -> (r: Result<(), NetworkError>)
        ensures
            r is Ok,
            final(self).environment == old(self).environment,
            final(self).sent() == if !old(self).environment.is_bootnode && sync_node is Some {
                old(self).sent().push(
                    RequestV::GetSync {
                        receiver: sync_node.unwrap(),
                        block_locator_hashes: locator_hashes(old(self).chain()),
                    },
                )
            } else {
                old(self).sent()
            },
    {
        if !self.environment.is_bootnode {
            let block_locator_hashes = self.environment.storage.get_block_locator_hashes();
            if let Some(sync_node) = sync_node {
                self.outbound.broadcast(
                    Request::GetSync(sync_node, GetSync { block_locator_hashes }),
                );
            }
        }
        Ok(())
    }

    /// Broadcast block to connected peers: one `Block` message per listed
    /// peer, except the miner it came from and this node itself. Sends are
    /// fire and forget; the operation itself always succeeds.
    pub fn propagate_block(
        &mut self,
        block_bytes: Vec<u8>,
        block_miner: Addr,
        connected_peers: &Vec<Addr>,
    ) -> (r: Result<(), NetworkError>)
        ensures
            r is Ok,
            final(self).environment == old(self).environment,
            final(self).sent() == old(self).sent() + block_fanout(
                connected_peers@,
                block_miner,
                old(self).addr(),
                block_bytes@,
            ),
    {
        let local_address = self.local_address();
        let ghost base = self.sent();
        let ghost peers = connected_peers@;
        let ghost data = block_bytes@;
        proof {
            assert(peers.take(0) =~= Seq::<Addr>::empty());
            assert(base + block_fanout(peers.take(0), block_miner, local_address, data) =~= base);
        }
        let mut i: usize = 0;
        while i < connected_peers.len()
            invariant
                i <= connected_peers.len(),
                peers == connected_peers@,
                data == block_bytes@,
                local_address == self.environment.local_address,
                self.environment == old(self).environment,
                self.sent() == base + block_fanout(
                    peers.take(i as int),
                    block_miner,
                    local_address,
                    data,
                ),
            decreases connected_peers.len() - i,
        {
            let remote_address = connected_peers[i];
            if remote_address != block_miner && remote_address != local_address {
                self.outbound.broadcast(
                    Request::Block(remote_address, Block { data: block_bytes.clone() }),
                );
            }
            proof {
                let pre = peers.take(i as int);
                let post = peers.take(i as int + 1);
                assert(post.drop_last() =~= pre);
                assert(post.last() == peers[i as int]);
                if peers[i as int] != block_miner && peers[i as int] != local_address {
                    assert(block_fanout(post, block_miner, local_address, data) =~= block_fanout(
                        pre,
                        block_miner,
                        local_address,
                        data,
                    ).push(RequestV::Block { receiver: peers[i as int], data }));
                    assert(self.sent() =~= base + block_fanout(
                        post,
                        block_miner,
                        local_address,
                        data,
                    ));
                } else {
                    assert(block_fanout(post, block_miner, local_address, data) =~= block_fanout(
                        pre,
                        block_miner,
                        local_address,
                        data,
                    ));
                }
            }
            i = i + 1;
        }
        proof {
            assert(peers.take(peers.len() as int) =~= peers);
        }
        Ok(())
    }

    /// Broadcast transaction to connected peers, with the same exclusion
    /// policy as the block fan-out.
    pub fn propagate_transaction(
        &mut self,
        transaction_bytes: Vec<u8>,
        transaction_sender: Addr,
        connected_peers: &Vec<Addr>,
    ) -> (r: Result<(), NetworkError>)
        ensures
            r is Ok,
            final(self).environment == old(self).environment,
            final(self).sent() == old(self).sent() + transaction_fanout(
                connected_peers@,
                transaction_sender,
                old(self).addr(),
                transaction_bytes@,
            ),
    {
        let local_address = self.local_address();
        let ghost base = self.sent();
        let ghost peers = connected_peers@;
        let ghost bytes = transaction_bytes@;
        proof {
            assert(peers.take(0) =~= Seq::<Addr>::empty());
            assert(base + transaction_fanout(peers.take(0), transaction_sender, local_address, bytes)
                =~= base);
        }
        let mut i: usize = 0;
        while i < connected_peers.len()
            invariant
                i <= connected_peers.len(),
                peers == connected_peers@,
                bytes == transaction_bytes@,
                local_address == self.environment.local_address,
                self.environment == old(self).environment,
                self.sent() == base + transaction_fanout(
                    peers.take(i as int),
                    transaction_sender,
                    local_address,
                    bytes,
                ),
            decreases connected_peers.len() - i,
        {
            let remote_address = connected_peers[i];
            if remote_address != transaction_sender && remote_address != local_address {
                self.outbound.broadcast(
                    Request::Transaction(
                        remote_address,
                        Transaction { bytes: transaction_bytes.clone() },
                    ),
                );
            }
            proof {
                let pre = peers.take(i as int);
                let post = peers.take(i as int + 1);
                assert(post.drop_last() =~= pre);
                assert(post.last() == peers[i as int]);
                if peers[i as int] != transaction_sender && peers[i as int] != local_address {
                    assert(transaction_fanout(post, transaction_sender, local_address, bytes)
                        =~= transaction_fanout(pre, transaction_sender, local_address, bytes).push(
                        RequestV::Transaction { receiver: peers[i as int], bytes },
                    ));
                    assert(self.sent() =~= base + transaction_fanout(
                        post,
                        transaction_sender,
                        local_address,
                        bytes,
                    ));
                } else {
                    assert(transaction_fanout(post, transaction_sender, local_address, bytes)
                        =~= transaction_fanout(pre, transaction_sender, local_address, bytes));
                }
            }
            i = i + 1;
        }
        proof {
            assert(peers.take(peers.len() as int) =~= peers);
        }
        Ok(())
    }

    /// A peer has sent us their chain state: one fire-and-forget `GetBlock`
    /// per listed hash. An empty reply means the chain states already match,
    /// and nothing is requested.
    pub fn received_sync(&mut self, remote_address: Addr, message: SyncReply) -> (r: Result<
        (),
        NetworkError,
    >)
        ensures
            r is Ok,
            final(self).environment == old(self).environment,
            final(self).sent() == old(self).sent() + getblock_requests(
                remote_address,
                message.block_hashes@,
            ),
            message.block_hashes@.len() == 0 ==> final(self).sent() == old(self).sent(),
    {
        let block_hashes = message.block_hashes;
        let ghost hashes = block_hashes@;
        let ghost base = self.sent();
        if block_hashes.len() != 0 {
            proof {
                assert(base + getblock_requests(remote_address, hashes.take(0)) =~= base);
            }
            let mut i: usize = 0;
            while i < block_hashes.len()
                invariant
                    i <= block_hashes.len(),
                    hashes == block_hashes@,
                    self.environment == old(self).environment,
                    self.sent() == base + getblock_requests(remote_address, hashes.take(i as int)),
                decreases block_hashes.len() - i,
            {
                let hash = block_hashes[i];
                self.outbound.broadcast(
                    Request::GetBlock(remote_address, GetBlock { block_hash: hash }),
                );
                proof {
                    assert(getblock_requests(remote_address, hashes.take(i as int + 1))
                        =~= getblock_requests(remote_address, hashes.take(i as int)).push(
                        RequestV::GetBlock { receiver: remote_address, block_hash: hashes[i as int] },
                    ));
                    assert(self.sent() =~= base + getblock_requests(
                        remote_address,
                        hashes.take(i as int + 1),
                    ));
                }
                i = i + 1;
            }
            proof {
                assert(hashes.take(hashes.len() as int) =~= hashes);
            }
        } else {
            proof {
                assert(base + getblock_requests(remote_address, hashes) =~= base);
            }
        }
        Ok(())
    }

    /// A peer has requested a block: send its serialized bytes back as a
    /// `SyncBlock` when storage has it, and stay silent on a lookup miss.
    pub fn received_get_block(&mut self, remote_address: Addr, message: GetBlock) -> (r: Result<
        (),
        NetworkError,
    >)
        ensures
            r is Ok,
            final(self).environment == old(self).environment,
            final(self).sent() == if chain_has(old(self).chain(), message.block_hash) {
                old(self).sent().push(
                    RequestV::SyncBlock {
                        receiver: remote_address,
                        data: chain_data(old(self).chain(), message.block_hash),
                    },
                )
            } else {
                old(self).sent()
            },
    {
        let block = self.environment.storage.get_block(message.block_hash);
        if let Some(data) = block {
            self.outbound.broadcast(Request::SyncBlock(remote_address, SyncBlock { data }));
        }
        Ok(())
    }

    /// Verify a transaction, add it to the memory pool, propagate it to
    /// peers. The decoder's and the consensus engine's answers arrive as
    /// values: an undecodable transaction is dropped silently, a rejected or
    /// coinbase-shaped one likewise, and only a transaction the pool reports
    /// as newly inserted is relayed — a duplicate already circulating is
    /// not amplified.
    pub fn received_transaction(
        &mut self,
        source: Addr,
        transaction: Transaction,
        connected_peers: Vec<Addr>,
        parsed: Option<ParsedTransaction>,
        verified: VerifyResult,
    ) -> (r: Result<(), NetworkError>)
        requires
            old(self).wf(),
        ensures
            final(self).wf(),
            final(self).same_config(*old(self)),
            final(self).environment.storage == old(self).environment.storage,
            match parsed {
                None => {
                    &&& r is Ok
                    &&& final(self).pool() == old(self).pool()
                    &&& final(self).sent() == old(self).sent()
                },
                Some(tx) => {
                    &&& (verified is Failed ==> {
                        &&& r == Err::<(), NetworkError>(NetworkError::TransactionVerification)
                        &&& final(self).pool() == old(self).pool()
                        &&& final(self).sent() == old(self).sent()
                    })
                    &&& (verified is Invalid ==> {
                        &&& r is Ok
                        &&& final(self).pool() == old(self).pool()
                        &&& final(self).sent() == old(self).sent()
                    })
                    &&& (verified is Valid && tx.value_balance >= 0 ==> {
                        &&& r is Ok
                        &&& final(self).pool() == old(self).pool()
                        &&& final(self).sent() == old(self).sent()
                    })
                    &&& (verified is Valid && tx.value_balance < 0 ==> r is Ok && {
                        if pool_has(old(self).pool(), tx.id) {
                            &&& final(self).pool() == old(self).pool()
                            &&& final(self).sent() == old(self).sent()
                        } else {
                            &&& final(self).pool() == old(self).pool().push(
                                batch_entry(transaction.bytes@, tx),
                            )
                            &&& final(self).sent() == old(self).sent() + transaction_fanout(
                                connected_peers@,
                                source,
                                old(self).addr(),
                                transaction.bytes@,
                            )
                        }
                    })
                },
            },
    {
        if let Some(tx) = parsed {
            match verified {
                VerifyResult::Failed => {
                    return Err(NetworkError::TransactionVerification);
                },
                VerifyResult::Invalid => {
                    // Received a transaction that was invalid
                    return Ok(());
                },
                VerifyResult::Valid => {},
            }
            if tx.value_balance >= 0 {
                // Received a transaction that was a coinbase transaction
                return Ok(());
            }
            let entry = Entry {
                size_in_bytes: transaction.bytes.len(),
                transaction: tx,
                serialized: transaction.bytes.clone(),
            };
            proof {
                assert(entry@ =~~= batch_entry(transaction.bytes@, tx));
            }
            let insertion = self.environment.memory_pool.insert(entry);
            if insertion.is_some() {
                // Transaction added to memory pool.
                self.propagate_transaction(transaction.bytes, source, &connected_peers)?;
            }
        }
        Ok(())
    }

    /// A peer has sent us a new block to process: phase one of ingestion.
    /// An envelope the decoder could not read is a hard error; otherwise the
    /// storage existence check decides whether the consensus engine is to
    /// see the block at all, and its verdict comes back through
    /// `block_validated`.
    #[allow(unused_variables)]
    pub fn received_block(
        &self,
        remote_address: Addr,
        block: &Block,
        decoded: Option<BlockHeaderHash>,
    ) -> (r: Result<BlockStatus, NetworkError>)
        ensures
            match decoded {
                None => r == Err::<BlockStatus, NetworkError>(NetworkError::BlockDecode),
                Some(h) => r == Ok::<BlockStatus, NetworkError>(
                    if chain_has(self.chain(), h) {
                        BlockStatus::AlreadyKnown
                    } else {
                        BlockStatus::NeedsValidation
                    },
                ),
            },
    {
        match decoded {
            None => Err(NetworkError::BlockDecode),
            Some(block_hash) => {
                if self.environment.storage.block_hash_exists(block_hash) {
                    Ok(BlockStatus::AlreadyKnown)
                } else {
                    Ok(BlockStatus::NeedsValidation)
                }
            },
        }
    }

    /// Phase two of block ingestion: the consensus engine has validated the
    /// block it was handed and, on success, the block is persisted at the
    /// next height and — when a peer directory was supplied — relayed to
    /// every peer but its immediate sender. A rejected block is swallowed
    /// silently, and a hash that meanwhile reached storage is a no-op.
    pub fn block_validated(
        &mut self,
        remote_address: Addr,
        block: Block,
        block_hash: BlockHeaderHash,
        accepted: bool,
        connected_peers: Option<Vec<Addr>>,
    ) -> (r: Result<(), NetworkError>)
        requires
            old(self).wf(),
            old(self).chain().len() < 0x1_0000_0000,
        ensures
            r is Ok,
            final(self).wf(),
            final(self).same_config(*old(self)),
            final(self).environment.memory_pool == old(self).environment.memory_pool,
            final(self).chain() == block_admission(
                old(self).chain(),
                block_hash,
                block.data@,
                accepted,
            ),
            final(self).sent() == if !chain_has(old(self).chain(), block_hash) && accepted
                && connected_peers is Some {
                old(self).sent() + block_fanout(
                    connected_peers.unwrap()@,
                    remote_address,
                    old(self).addr(),
                    block.data@,
                )
            } else {
                old(self).sent()
            },
    {
        if !self.environment.storage.block_hash_exists(block_hash) {
            if accepted {
                // This is a new block: persist it, then send it to our peers.
                let stored = block.data.clone();
                proof {
                    assert(stored@ =~= block.data@);
                }
                self.environment.storage.commit_block(block_hash, stored);
                if let Some(peers) = connected_peers {
                    self.propagate_block(block.data, remote_address, &peers)?;
                }
            }
        }
        Ok(())
    }

    /// A peer has requested our memory pool transactions: the pooled
    /// entries' serialized bytes go back as one batched `MemoryPool`
    /// message, and an empty pool sends nothing at all.
    pub fn received_get_memory_pool(&mut self, remote_address: Addr) -> (r: Result<
        (),
        NetworkError,
    >)
        ensures
            r is Ok,
            final(self).environment == old(self).environment,
            final(self).sent() == if old(self).pool().len() > 0 {
                old(self).sent().push(
                    RequestV::MemoryPool {
                        receiver: remote_address,
                        transactions: pool_serialized(old(self).pool()),
                    },
                )
            } else {
                old(self).sent()
            },
    {
        let mut transactions: Vec<Vec<u8>> = Vec::new();
        let n = self.environment.memory_pool.entries.len();
        let mut i: usize = 0;
        while i < n
            invariant
                i <= n,
                n == self.environment.memory_pool.entries.len(),
                self.environment == old(self).environment,
                self.outbound == old(self).outbound,
                transactions@.len() == i,
                forall|j: int|
                    0 <= j < i ==> transactions@[j]@ == self.pool()[j].serialized,
            decreases n - i,
        {
            let transaction_bytes = self.environment.memory_pool.entries[i].serialized.clone();
            proof {
                assert(self.pool()[i as int] == self.environment.memory_pool.entries@[i as int]@);
                assert(transaction_bytes@ =~= self.pool()[i as int].serialized);
            }
            transactions.push(transaction_bytes);
            i = i + 1;
        }
        if transactions.len() != 0 {
            proof {
                assert(transactions@.map(|j: int, v: Vec<u8>| v@) =~= pool_serialized(
                    old(self).pool(),
                ));
            }
            self.outbound.broadcast(
                Request::MemoryPool(remote_address, MemoryPool { transactions }),
            );
        }
        Ok(())
    }

    /// A peer has sent us their memory pool transactions. Each decoded entry
    /// is inserted directly — this handler trusts batch provenance and does
    /// not re-verify — and the first entry that fails to decode is a hard
    /// error that aborts the remaining entries, keeping what was already
    /// inserted. The decoder's answers arrive alongside the batch, one per
    /// entry.
    pub fn received_memory_pool(
        &mut self,
        message: MemoryPool,
        parsed: Vec<Option<ParsedTransaction>>,
    ) -> (r: Result<(), NetworkError>)
        requires
            old(self).wf(),
            parsed@.len() == message.transactions@.len(),
        ensures
            final(self).wf(),
            final(self).same_config(*old(self)),
            final(self).environment.storage == old(self).environment.storage,
            final(self).outbound == old(self).outbound,
            final(self).pool() == batch_pool(
                old(self).pool(),
                message.transactions@.map(|i: int, v: Vec<u8>| v@),
                parsed@,
            ),
            r == if batch_ok(parsed@) {
                Ok::<(), NetworkError>(())
            } else {
                Err::<(), NetworkError>(NetworkError::TransactionDecode)
            },
    {
        let ghost txs = message.transactions@.map(|i: int, v: Vec<u8>| v@);
        let ghost parsed_seq = parsed@;
        let ghost base = self.pool();
        proof {
            assert(txs.skip(0) =~= txs);
            assert(parsed_seq.skip(0) =~= parsed_seq);
        }
        let n = message.transactions.len();
        let mut i: usize = 0;
        while i < n
            invariant
                i <= n,
                self.wf(),
                n == message.transactions.len(),
                txs == message.transactions@.map(|k: int, v: Vec<u8>| v@),
                parsed_seq == parsed@,
                parsed@.len() == message.transactions@.len(),
                self.same_config(*old(self)),
                self.environment.storage == old(self).environment.storage,
                self.outbound == old(self).outbound,
                forall|j: int| 0 <= j < i ==> parsed_seq[j] is Some,
                batch_pool(base, txs, parsed_seq) == batch_pool(
                    self.pool(),
                    txs.skip(i as int),
                    parsed_seq.skip(i as int),
                ),
                base == old(self).pool(),
            decreases n - i,
        {
            proof {
                assert(txs.skip(i as int)[0] == txs[i as int]);
                assert(parsed_seq.skip(i as int)[0] == parsed_seq[i as int]);
            }
            match parsed[i] {
                None => {
                    return Err(NetworkError::TransactionDecode);
                },
                Some(transaction) => {
                    let transaction_bytes = &message.transactions[i];
                    let entry = Entry {
                        size_in_bytes: transaction_bytes.len(),
                        transaction,
                        serialized: transaction_bytes.clone(),
                    };
                    proof {
                        assert(entry@ =~~= batch_entry(txs[i as int], transaction));
                    }
                    let ghost before = self.pool();
                    let _ = self.environment.memory_pool.insert(entry);
                    proof {
                        assert(txs.skip(i as int).skip(1) =~= txs.skip(i as int + 1));
                        assert(parsed_seq.skip(i as int).skip(1) =~= parsed_seq.skip(i as int + 1));
                        assert(batch_pool(before, txs.skip(i as int), parsed_seq.skip(i as int))
                            == batch_pool(
                            self.pool(),
                            txs.skip(i as int + 1),
                            parsed_seq.skip(i as int + 1),
                        ));
                    }
                },
            }
            i = i + 1;
        }
        proof {
            assert(txs.skip(n as int) =~= Seq::<Seq<u8>>::empty());
        }
        Ok(())
    }

    /// A peer has requested our chain state to sync with. The most recent
    /// locator hash this node also has estimates the common ancestor; the
    /// reply carries the hashes right after it, capped at 4000, and is sent
    /// even when empty — an empty reply tells the requester it is caught
    /// up. A locator sharing nothing with this chain is a hard error and
    /// nothing is sent.
    pub fn received_get_sync(&mut self, remote_address: Addr, message: GetSync) -> (r: Result<
        (),
        NetworkError,
    >)
        requires
            old(self).wf(),
        ensures
            final(self).wf(),
            final(self).environment == old(self).environment,
            match first_shared(old(self).chain(), message.block_locator_hashes@) {
                None => {
                    &&& r == Err::<(), NetworkError>(NetworkError::NoSharedHash)
                    &&& final(self).sent() == old(self).sent()
                },
                Some(shared) => {
                    &&& r is Ok
                    &&& final(self).sent() == old(self).sent().push(
                        RequestV::SyncReply {
                            receiver: remote_address,
                            block_hashes: sync_range(
                                old(self).chain(),
                                height_of(old(self).chain(), shared),
                            ),
                        },
                    )
                },
            },
    {
        let ghost c = self.chain();
        let latest_shared_hash = self.environment.storage.get_latest_shared_hash(
            &message.block_locator_hashes,
        );
        let current_height = self.environment.storage.get_current_block_height();
        let shared = match latest_shared_hash {
            None => {
                return Err(NetworkError::NoSharedHash);
            },
            Some(shared) => shared,
        };
        proof {
            lemma_first_shared(c, message.block_locator_hashes@);
            crate::chain::lemma_height_of(c, shared);
        }
        let block_hashes: Vec<BlockHeaderHash> = match self.environment.storage.get_block_number(
            shared,
        ) {
            Some(height) => {
                proof {
                    assert(height_of(c, shared) == height as int);
                }
                if height < current_height {
                    let mut max_height: u32 = current_height;
                    // if the requester is behind more than 4000 blocks,
                    // send at most the next 4000
                    if (height as u64) + 4000 < (current_height as u64) {
                        max_height = height + 4000;
                    }
                    let mut block_hashes: Vec<BlockHeaderHash> = Vec::new();
                    let mut block_num: u64 = (height as u64) + 1;
                    while block_num <= (max_height as u64)
                        invariant
                            self.wf(),
                            c == self.chain(),
                            height_of(c, shared) == height as int,
                            height < current_height,
                            current_height as int == c.len() - 1,
                            max_height as int == if height as int + 4000 < c.len() - 1 {
                                height as int + 4000
                            } else {
                                c.len() - 1
                            },
                            (height as u64) + 1 <= block_num <= (max_height as u64) + 1,
                            block_hashes@.len() == block_num - (height as u64) - 1,
                            forall|j: int|
                                0 <= j < block_hashes@.len() ==> block_hashes@[j] == c[height as int
                                    + 1 + j].hash,
                        decreases (max_height as int) + 1 - (block_num as int),
                    {
                        block_hashes.push(
                            self.environment.storage.get_block_hash(block_num as u32),
                        );
                        block_num = block_num + 1;
                    }
                    proof {
                        assert(block_hashes@ =~= sync_range(c, height as int));
                    }
                    block_hashes
                } else {
                    let block_hashes: Vec<BlockHeaderHash> = Vec::new();
                    proof {
                        assert(block_hashes@ =~= sync_range(c, height as int));
                    }
                    block_hashes
                }
            },
            None => {
                // the shared hash came from this chain, so it always
                // resolves to a height; kept for the storage interface's
                // error arm
                Vec::new()
            },
        };
        proof {
            assert(block_hashes@ == sync_range(c, height_of(c, shared)));
        }
        // send the hashes to the requester, even when there are none
        self.outbound.broadcast(
            Request::SyncReply(remote_address, SyncReply { block_hashes }),
        );
        Ok(())
    }
}

/// The targets of a fan-out are exactly the listed peers other than the
/// originator and the node itself: never those two, each eligible peer
/// reached, and — for a duplicate-free directory — each reached only once.
pub proof fn lemma_fanout_targets(peers: Seq<Addr>, origin: Addr, local: Addr)
    ensures
        forall|i: int|
            0 <= i < fanout_targets(peers, origin, local).len() ==> {
                let t = #[trigger] fanout_targets(peers, origin, local)[i];
                t != origin && t != local && peers.contains(t)
            },
        forall|a: Addr|
            #[trigger] peers.contains(a) && a != origin && a != local ==> fanout_targets(
                peers,
                origin,
                local,
            ).contains(a),
        peers.no_duplicates() ==> fanout_targets(peers, origin, local).no_duplicates(),
    decreases peers.len(),
{
    if peers.len() == 0 {
    } else {
        let front = peers.drop_last();
        let last = peers.last();
        let rest = fanout_targets(front, origin, local);
        let all = fanout_targets(peers, origin, local);
        lemma_fanout_targets(front, origin, local);
        assert forall|i: int| 0 <= i < all.len() implies {
            let t = #[trigger] all[i];
            t != origin && t != local && peers.contains(t)
        } by {
            if i < rest.len() {
                assert(rest[i] != origin && rest[i] != local && front.contains(rest[i]));
                let k = choose|k: int| 0 <= k < front.len() && front[k] == rest[i];
                assert(peers[k] == rest[i]);
            } else {
                assert(all[i] == last);
                assert(peers[peers.len() - 1] == last);
            }
        }
        assert forall|a: Addr|
            #[trigger] peers.contains(a) && a != origin && a != local implies all.contains(a) by {
            let k = choose|k: int| 0 <= k < peers.len() && peers[k] == a;
            if k < peers.len() - 1 {
                assert(front[k] == a);
                assert(front.contains(a));
                assert(rest.contains(a));
                let m = choose|m: int| 0 <= m < rest.len() && rest[m] == a;
                assert(all[m] == a);
            } else {
                assert(a == last);
                assert(all[all.len() - 1] == a);
            }
        }
        if peers.no_duplicates() {
            assert(front.no_duplicates());
            if last != origin && last != local {
                assert forall|i: int, j: int|
                    0 <= i < all.len() && 0 <= j < all.len() && i != j implies all[i] != all[j] by {
                    if i < rest.len() && j < rest.len() {
                    } else if i == rest.len() {
                        if rest[j] == last {
                            let k = choose|k: int| 0 <= k < front.len() && front[k] == rest[j];
                            assert(peers[k] == peers[peers.len() - 1]);
                        }
                    } else {
                        if rest[i] == last {
                            let k = choose|k: int| 0 <= k < front.len() && front[k] == rest[i];
                            assert(peers[k] == peers[peers.len() - 1]);
                        }
                    }
                }
            }
        }
    }
}

/// Fan-out law for blocks: `propagate_block` enqueues only `Block` messages
/// carrying the given bytes, never to the miner the block came from nor to
/// the node's own address, to every other peer of the directory, and — for
/// a duplicate-free directory — to each exactly once.
pub proof fn lemma_propagate_block_fanout(
    peers: Seq<Addr>,
    block_miner: Addr,
    local: Addr,
    data: Seq<u8>,
)
    ensures
        forall|i: int|
            0 <= i < block_fanout(peers, block_miner, local, data).len() ==> {
                let req = #[trigger] block_fanout(peers, block_miner, local, data)[i];
                &&& req == RequestV::Block { receiver: req.receiver(), data }
                &&& req.receiver() != block_miner
                &&& req.receiver() != local
                &&& peers.contains(req.receiver())
            },
        forall|a: Addr|
            #[trigger] peers.contains(a) && a != block_miner && a != local ==> exists|i: int|
                0 <= i < block_fanout(peers, block_miner, local, data).len() && block_fanout(
                    peers,
                    block_miner,
                    local,
                    data,
                )[i].receiver() == a,
        peers.no_duplicates() ==> forall|i: int, j: int|
            0 <= i < block_fanout(peers, block_miner, local, data).len() && 0 <= j < block_fanout(
                peers,
                block_miner,
                local,
                data,
            ).len() && i != j ==> block_fanout(peers, block_miner, local, data)[i].receiver()
                != block_fanout(peers, block_miner, local, data)[j].receiver(),
{
    lemma_fanout_targets(peers, block_miner, local);
    let targets = fanout_targets(peers, block_miner, local);
    let fan = block_fanout(peers, block_miner, local, data);
    assert forall|a: Addr|
        #[trigger] peers.contains(a) && a != block_miner && a != local implies exists|i: int|
        0 <= i < fan.len() && fan[i].receiver() == a by {
        let k = choose|k: int| 0 <= k < targets.len() && targets[k] == a;
        assert(fan[k].receiver() == a);
    }
}

/// Fan-out law for transactions: the same exclusion policy, applied to
/// `Transaction` messages.
pub proof fn lemma_propagate_transaction_fanout(
    peers: Seq<Addr>,
    transaction_sender: Addr,
    local: Addr,
    bytes: Seq<u8>,
)
    ensures
        forall|i: int|
            0 <= i < transaction_fanout(peers, transaction_sender, local, bytes).len() ==> {
                let req = #[trigger] transaction_fanout(peers, transaction_sender, local, bytes)[i];
                &&& req == RequestV::Transaction { receiver: req.receiver(), bytes }
                &&& req.receiver() != transaction_sender
                &&& req.receiver() != local
                &&& peers.contains(req.receiver())
            },
        forall|a: Addr|
            #[trigger] peers.contains(a) && a != transaction_sender && a != local ==> exists|i: int|
                0 <= i < transaction_fanout(peers, transaction_sender, local, bytes).len()
                    && transaction_fanout(peers, transaction_sender, local, bytes)[i].receiver()
                    == a,
        peers.no_duplicates() ==> forall|i: int, j: int|
            0 <= i < transaction_fanout(peers, transaction_sender, local, bytes).len() && 0 <= j
                < transaction_fanout(peers, transaction_sender, local, bytes).len() && i != j
                ==> transaction_fanout(peers, transaction_sender, local, bytes)[i].receiver()
                != transaction_fanout(peers, transaction_sender, local, bytes)[j].receiver(),
{
    lemma_fanout_targets(peers, transaction_sender, local);
    let targets = fanout_targets(peers, transaction_sender, local);
    let fan = transaction_fanout(peers, transaction_sender, local, bytes);
    assert forall|a: Addr|
        #[trigger] peers.contains(a) && a != transaction_sender && a != local implies exists|i: int|
        0 <= i < fan.len() && fan[i].receiver() == a by {
        let k = choose|k: int| 0 <= k < targets.len() && targets[k] == a;
        assert(fan[k].receiver() == a);
    }
}

/// Sync replies are bounded and positional: a requester never receives more
/// than 4000 hashes however far behind it is, a requester whose shared
/// height is the tip receives none, a requester 4000 or more blocks behind
/// receives exactly 4000, and the hashes are those of the consecutive
/// blocks right after the shared height.
pub proof fn lemma_sync_range_bounds(c: Seq<StoredBlockV>, shared_height: int)
    requires
        0 <= shared_height < c.len(),
    ensures
        sync_range(c, shared_height).len() <= 4000,
        shared_height == c.len() - 1 ==> sync_range(c, shared_height) == Seq::<
            BlockHeaderHash,
        >::empty(),
        c.len() - 1 - shared_height >= 4000 ==> sync_range(c, shared_height).len() == 4000,
        forall|i: int|
            0 <= i < sync_range(c, shared_height).len() ==> sync_range(c, shared_height)[i] == c[
                shared_height + 1 + i
            ].hash,
{
}

/// Block ingestion is idempotent at the admission boundary: admitting an
/// accepted block makes its hash known, and admission of a hash the chain
/// already knows changes nothing — so a second ingestion of the same
/// envelope finds the block `AlreadyKnown`, validates nothing, relays
/// nothing, and leaves the chain as the first ingestion left it.
pub proof fn lemma_block_admission_idempotent(
    c: Seq<StoredBlockV>,
    h: BlockHeaderHash,
    data: Seq<u8>,
    data2: Seq<u8>,
    accepted2: bool,
)
    ensures
        chain_has(block_admission(c, h, data, true), h),
        chain_has(c, h) ==> block_admission(c, h, data2, accepted2) == c,
        block_admission(block_admission(c, h, data, true), h, data2, accepted2) == block_admission(
            c,
            h,
            data,
            true,
        ),
{
    if !chain_has(c, h) {
        let after = c.push(StoredBlockV { hash: h, data });
        assert(after[c.len() as int].hash == h);
        assert(chain_has(after, h));
    }
}

} // verus!
