//! A message-routing core: envelopes, topic routing tables, worker
//! bookkeeping, retry and dead-letter decisions, audit buffering and
//! metric aggregation, each stated and proved over a mathematical model.

use vstd::prelude::*;

pub mod audit;
pub mod constant;
pub mod control;
pub mod dead_letter;
pub mod error;
pub mod handler;
pub mod message;
pub mod metrics;
pub mod middleware;
pub mod queues;
pub mod shutdown;
pub mod strmap;
pub mod system_handlers;
pub mod text;
pub mod time;
pub mod topic;
pub mod trace;
pub mod wal;
pub mod worker;
pub mod worker_registry;

verus! {

/// The role of a node in the system.
#[derive(Debug, Clone, Copy, PartialEq, Eq, Structural, Hash)]
pub enum NodeType {
    /// Coordinates workers, owns the write-ahead log and the control topics.
    Host,
    /// Consumes and processes messages from topics.
    Worker,
}

} // verus!
