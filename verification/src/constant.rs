//! Names of the system topics and other fixed settings.

use vstd::prelude::*;

verus! {

/// Prefix shared by all system topics.
pub const SYSTEM_TOPIC_PREFIX: &'static str = "_system.";
/// Audit records.
pub const SYSTEM_TOPIC_AUDIT: &'static str = "_system.audit";
/// Node metrics.
pub const SYSTEM_TOPIC_METRICS: &'static str = "_system.metrics";
/// Shutdown commands.
pub const SYSTEM_TOPIC_SHUTDOWN: &'static str = "_system.shutdown";
/// Shutdown acknowledgments from workers.
pub const SYSTEM_TOPIC_SHUTDOWN_ACK: &'static str = "_system.shutdown_ack";
/// Topic discovery requests.
pub const SYSTEM_TOPIC_TOPIC_DISCOVERY: &'static str = "_system.topic_discovery";
/// Topic list synchronization.
pub const SYSTEM_TOPIC_TOPIC_SYNC: &'static str = "_system.topic_sync";
/// Trace records.
pub const SYSTEM_TOPIC_TRACE: &'static str = "_system.trace";
/// Write-ahead-log status updates.
pub const SYSTEM_TOPIC_WAL_SYNC: &'static str = "_system.wal_sync";
/// Worker discovery.
pub const SYSTEM_TOPIC_WORKER_DISCOVERY: &'static str = "_system.worker_discovery";
/// Worker heartbeats.
pub const SYSTEM_TOPIC_WORKER_HEARTBEAT: &'static str = "_system.worker_heartbeat";
/// Prefix of dead-letter topics.
pub const DEAD_LETTER_PREFIX: &'static str = "dead_letter.";
/// Workers created for each system topic on a host.
pub const SYSTEM_WORKER_COUNT: usize = 32;

} // verus!
