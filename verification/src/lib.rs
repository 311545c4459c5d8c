//! Peer-networking and sync core of a beacon-chain node.
//!
//! The crate multiplexes peer-to-peer sub-protocol events behind a single
//! behaviour, classifies remote peers against the local chain during the
//! handshake, answers block-range and recent-block queries, and pre-validates
//! gossip blocks and attestations before they are forwarded.

pub mod types;
pub mod signature;
pub mod chain;
pub mod attestation;
pub mod codec;
pub mod seen_cache;
pub mod behaviour;
pub mod simple_sync;
