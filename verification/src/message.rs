//! Wire vocabulary of the node: every message that travels between peers,
//! and the addressed request handed to the outbound transport for each send.

use vstd::prelude::*;

verus! {

/// A peer's network address. The transport layer resolves it to a socket;
/// this core only compares addresses for identity, so it carries an opaque
/// identifier.
#[derive(Clone, Copy, PartialEq, Eq, Hash, Debug, Structural)]
pub struct Addr {
    pub id: u64,
}

/// The hash of a block header: the identity of a block.
#[derive(Clone, Copy, PartialEq, Eq, Hash, Debug, Structural)]
pub struct BlockHeaderHash {
    pub id: u64,
}

/// A request for the blocks a peer has that the sender is missing, carrying
/// the sender's locator hashes (most recent first).
#[derive(Clone, Debug, PartialEq, Eq)]
pub struct GetSync {
    pub block_locator_hashes: Vec<BlockHeaderHash>,
}

/// The reply to a `GetSync`: the ordered hashes the requester is believed to
/// be missing. An empty list means the requester is caught up.
#[derive(Clone, Debug, PartialEq, Eq)]
pub struct SyncReply {
    pub block_hashes: Vec<BlockHeaderHash>,
}

/// A request for one block by its header hash.
#[derive(Clone, Copy, Debug, PartialEq, Eq, Structural)]
pub struct GetBlock {
    pub block_hash: BlockHeaderHash,
}

/// A freshly gossiped block, as raw serialized bytes.
#[derive(Clone, Debug, PartialEq, Eq)]
pub struct Block {
    pub data: Vec<u8>,
}

/// A block sent in reply to a `GetBlock`, as raw serialized bytes.
#[derive(Clone, Debug, PartialEq, Eq)]
pub struct SyncBlock {
    pub data: Vec<u8>,
}

/// A gossiped transaction, as raw serialized bytes.
#[derive(Clone, Debug, PartialEq, Eq)]
pub struct Transaction {
    pub bytes: Vec<u8>,
}

/// A batch of pooled transactions, each as raw serialized bytes.
#[derive(Clone, Debug, PartialEq, Eq)]
pub struct MemoryPool {
    pub transactions: Vec<Vec<u8>>,
}

/// An addressed send: one message, one destination peer. The transport
/// delivers it best effort and fire-and-forget.
#[derive(Clone, Debug, PartialEq, Eq)]
pub enum Request {
    GetSync(Addr, GetSync),
    SyncReply(Addr, SyncReply),
    GetBlock(Addr, GetBlock),
    Block(Addr, Block),
    SyncBlock(Addr, SyncBlock),
    Transaction(Addr, Transaction),
    MemoryPool(Addr, MemoryPool),
    GetMemoryPool(Addr),
}

/// The mathematical shape of a `Request`: payload vectors become sequences.
#[verifier::ext_equal]
pub ghost enum RequestV {
    GetSync { receiver: Addr, block_locator_hashes: Seq<BlockHeaderHash> },
    SyncReply { receiver: Addr, block_hashes: Seq<BlockHeaderHash> },
    GetBlock { receiver: Addr, block_hash: BlockHeaderHash },
    Block { receiver: Addr, data: Seq<u8> },
    SyncBlock { receiver: Addr, data: Seq<u8> },
    Transaction { receiver: Addr, bytes: Seq<u8> },
    MemoryPool { receiver: Addr, transactions: Seq<Seq<u8>> },
    GetMemoryPool { receiver: Addr },
}

impl RequestV {
    /// The peer this request is addressed to.
    pub open spec fn receiver(self) -> Addr {
        match self {
            RequestV::GetSync { receiver, .. } => receiver,
            RequestV::SyncReply { receiver, .. } => receiver,
            RequestV::GetBlock { receiver, .. } => receiver,
            RequestV::Block { receiver, .. } => receiver,
            RequestV::SyncBlock { receiver, .. } => receiver,
            RequestV::Transaction { receiver, .. } => receiver,
            RequestV::MemoryPool { receiver, .. } => receiver,
            RequestV::GetMemoryPool { receiver } => receiver,
        }
    }
}

impl View for Request {
    type V = RequestV;

    open spec fn view(&self) -> RequestV {
        match self {
            Request::GetSync(a, m) => RequestV::GetSync {
                receiver: *a,
                block_locator_hashes: m.block_locator_hashes@,
            },
            Request::SyncReply(a, m) => RequestV::SyncReply {
                receiver: *a,
                block_hashes: m.block_hashes@,
            },
            Request::GetBlock(a, m) => RequestV::GetBlock { receiver: *a, block_hash: m.block_hash },
            Request::Block(a, m) => RequestV::Block { receiver: *a, data: m.data@ },
            Request::SyncBlock(a, m) => RequestV::SyncBlock { receiver: *a, data: m.data@ },
            Request::Transaction(a, m) => RequestV::Transaction { receiver: *a, bytes: m.bytes@ },
            Request::MemoryPool(a, m) => RequestV::MemoryPool {
                receiver: *a,
                transactions: m.transactions@.map(|i: int, v: Vec<u8>| v@),
            },
            Request::GetMemoryPool(a) => RequestV::GetMemoryPool { receiver: *a },
        }
    }
}

} // verus!
