//! Round-driven BFT consensus core of a permissioned replica, together with
//! the transaction pool that feeds it.
//!
//! The library holds the verified decision logic: the block store DAG, the
//! per-round state, the safety rules that forbid conflicting votes, the round
//! manager that drives them, and the mempool with its priority, account and
//! timeline indices. Collaborators that perform I/O (network transport,
//! durable storage, the wall clock, the execution engine) stay outside: the
//! round manager takes their answers as plain arguments (the current time,
//! blocks fetched from a peer, a pulled payload) and hands back the actions
//! to perform.

pub mod block_store;
pub mod mempool;
pub mod round_manager;
pub mod round_state;
pub mod safety;
pub mod ttl_cache;
pub mod types;
