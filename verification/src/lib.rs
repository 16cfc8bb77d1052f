//! A replicated cluster-state cache.
//!
//! Every cache mutation is offered to a shared append-only log before it
//! becomes visible in the local lookup structure, so the log is the single
//! source of truth for writes: other process instances consuming the same
//! log can rebuild an equivalent cache.  The crate covers the replication
//! core only: the log publisher's send queue, the replicated-cache
//! contract, the concrete in-memory cache, and the factory that mints
//! caches sharing one destination.  Actual delivery of queued records to
//! the log cluster is left to the embedding program, which drains the
//! queue and hands each record to its transport.

pub mod cache;
pub mod codec;
pub mod errors;
pub mod groups;
pub mod store;
