//! Linearizable-read (read-index) bookkeeping for a consensus leader.
//!
//! A leader answers client reads without appending a log entry by
//! confirming, through a heartbeat round, that its committed index is
//! visible to a quorum.  This crate keeps the registry of in-flight read
//! requests, tracks per-request acknowledgments, gates requests behind the
//! term-start commit rule, and drains confirmed requests in registration
//! order.  The owning engine decides quorums and commit indices; this
//! crate only keeps the books.

pub mod errors;
pub mod message;
pub mod read_only;
