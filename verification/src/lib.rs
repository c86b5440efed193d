//! A verified core for a distributed IoT data-integrity node.
//!
//! Sensors at the edge emit readings that are disseminated over a pub/sub
//! bus, attributed to decentralized identities, and anchored on an
//! append-only ledger stream. This crate holds the verified heart of such a
//! node: the wire codec for the bus topics, the JSON payload codec for the
//! ledger plane, the persistence index with its uniqueness invariants, the
//! peer-identity state machine, and the reconciliation engine that binds the
//! three planes together. All I/O (broker, RPC gateways, clocks) stays
//! outside; the engine is driven by handing it decoded events and the
//! results of outside calls.

pub mod bootstrap;
pub mod codec;
pub mod config;
pub mod engine;
pub mod laws;
pub mod ledger;
pub mod models;
pub mod msg_util;
pub mod random;
pub mod store;
pub mod topics;
