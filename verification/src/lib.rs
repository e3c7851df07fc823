//! Block and transaction relay engine of a peer-to-peer blockchain node.
//!
//! The library decides what a node broadcasts, to whom, when inbound chain
//! data is admitted, and how two nodes negotiate which blocks one is missing.
//! Cryptographic validation, persistent storage, and the socket transport are
//! collaborators outside this crate: their answers (decode results, consensus
//! verdicts) enter the handlers as plain values, and every outbound send is an
//! addressed request enqueued on an outbound queue that the surrounding node
//! process drains.

pub mod blocks;
pub mod chain;
pub mod message;
pub mod outbound;
pub mod pool;
