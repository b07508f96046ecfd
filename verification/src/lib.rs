//! A small replicated key-value store core.
//!
//! Client reads and writes are funneled through a consensus log so that every
//! replica applies the same operations in the same order.  This crate holds
//! the deterministic heart of such a node: the request/response data model and
//! its byte codec, the key namespacing, the applier that executes committed
//! entries, the proposal registry that completes client requests at most once,
//! the per-peer outbound transport queues, and the node driver that glues them
//! together while preserving the persist-then-send-then-apply order.  The
//! consensus algorithm itself, storage, and the network are external
//! collaborators driven from outside this crate.

pub mod applier;
pub mod cluster;
pub mod codec;
pub mod kv;
pub mod keys;
pub mod node;
pub mod registry;
pub mod transport;
pub mod types;
