//! The decisions of the node's control service: the shutdown command a
//! request stands for, and the worker listing it answers with.

use vstd::prelude::*;
use crate::NodeType;
use crate::shutdown::{ShutdownCommand, ShutdownStrategy};
use crate::time::{Timestamp, MAX_DURATION_NANOS};
use crate::worker_registry::WorkerInfo;

verus! {

/// The strategy carried by a shutdown request.
#[derive(Debug)]
pub enum RequestedStrategy {
    /// Signal, wait, then force.
    TwoStage { poll_interval_ms: u64, force_timeout_secs: u64 },
    /// Stop one worker once idle.
    Graceful { worker_name: String, poll_interval_ms: u64 },
    /// Stop every worker at once.
    Force,
    /// Stop the idle workers.
    StateBasedIdle,
    /// Stop workers in batches.
    Batched { batch_size: u64, interval_ms: u64 },
    /// Any other strategy the request format can carry.
    Other,
}

/// Why the control service refused a request.
#[derive(Debug, PartialEq, Eq)]
pub enum ControlRefusal {
    /// The request's arguments are not acceptable, with the reason.
    InvalidArgument(String),
}

/// Whether `r` refuses with exactly the text `text`.
pub open spec fn refused_with<T>(r: Result<T, ControlRefusal>, text: Seq<char>) -> bool {
    r matches Err(ControlRefusal::InvalidArgument(s)) && s@ == text
}

/// The shutdown command a request asks for: each accepted strategy
/// becomes the command's strategy with the same settings (the batch size
/// taken as a `usize`); a request without a strategy is refused with "No
/// shutdown requested", any other strategy with "Invalid strategy".
pub fn shutdown_command_for(strategy: Option<RequestedStrategy>) -> (r: Result<ShutdownCommand, ControlRefusal>)
    ensures
        match strategy {
            None => refused_with(r, "No shutdown requested"@),
            Some(RequestedStrategy::Other) => refused_with(r, "Invalid strategy"@),
            Some(RequestedStrategy::TwoStage { poll_interval_ms, force_timeout_secs }) =>
                r matches Ok(c) && c.strategy == (ShutdownStrategy::TwoStage { poll_interval_ms, force_timeout_secs }),
            Some(RequestedStrategy::Graceful { worker_name, poll_interval_ms }) =>
                r matches Ok(c) && c.strategy == (ShutdownStrategy::Graceful { worker_name, poll_interval_ms }),
            Some(RequestedStrategy::Force) => r matches Ok(c) && c.strategy == ShutdownStrategy::Force,
            Some(RequestedStrategy::StateBasedIdle) => r matches Ok(c) && c.strategy == ShutdownStrategy::StateBasedIdle,
            Some(RequestedStrategy::Batched { batch_size, interval_ms }) =>
                r matches Ok(c) && c.strategy == (ShutdownStrategy::Batched { batch_size: batch_size as usize, interval_ms }),
        },
{
    let strategy = match strategy {
        Some(s) => s,
        None => {
            return Err(ControlRefusal::InvalidArgument(String::from_str("No shutdown requested")));
        },
    };
    let s = match strategy {
        RequestedStrategy::TwoStage { poll_interval_ms, force_timeout_secs } =>
            ShutdownStrategy::TwoStage { poll_interval_ms, force_timeout_secs },
        RequestedStrategy::Graceful { worker_name, poll_interval_ms } =>
            ShutdownStrategy::Graceful { worker_name, poll_interval_ms },
        RequestedStrategy::Force => ShutdownStrategy::Force,
        RequestedStrategy::StateBasedIdle => ShutdownStrategy::StateBasedIdle,
        RequestedStrategy::Batched { batch_size, interval_ms } =>
            ShutdownStrategy::Batched { batch_size: batch_size as usize, interval_ms },
        RequestedStrategy::Other => {
            return Err(ControlRefusal::InvalidArgument(String::from_str("Invalid strategy")));
        },
    };
    Ok(ShutdownCommand { strategy: s })
}

/// Whole seconds since the epoch of an instant at or after it.
pub fn epoch_seconds(t: Timestamp) -> (s: u64)
    requires
        0 <= t <= MAX_DURATION_NANOS,
    ensures
        s == t / 1_000_000_000,
{
    (t / 1_000_000_000) as u64
}

/// One worker as the service lists it.
#[derive(Debug)]
pub struct ListedWorker {
    /// Its name.
    pub worker_name: String,
    /// Its topic.
    pub topic: String,
    /// Its last heartbeat, in whole seconds since the epoch.
    pub last_heartbeat: u64,
}

/// The service's answer to a worker listing: refused on a worker node
/// ("Worker type is not supported"); on a host, the count (as a `u32`)
/// and each worker in order with its heartbeat in epoch seconds.
pub fn worker_listing(node_type: NodeType, workers: Vec<WorkerInfo>) -> (r: Result<(u32, Vec<ListedWorker>), ControlRefusal>)
    requires
        forall|i: int| 0 <= i < workers@.len() ==> 0 <= #[trigger] workers@[i].last_heartbeat <= MAX_DURATION_NANOS,
    ensures
        node_type == NodeType::Worker ==> refused_with(r, "Worker type is not supported"@),
        node_type == NodeType::Host ==> (r matches Ok((total, listed)) && total == workers@.len() as u32
            && listed@.len() == workers@.len()
            && forall|i: int| 0 <= i < workers@.len() ==> {
                &&& (#[trigger] listed@[i]).worker_name == workers@[i].worker_name
                &&& listed@[i].topic == workers@[i].topic
                &&& listed@[i].last_heartbeat == workers@[i].last_heartbeat / 1_000_000_000
            }),
{
    if node_type == NodeType::Worker {
        return Err(ControlRefusal::InvalidArgument(String::from_str("Worker type is not supported")));
    }
    let total = workers.len() as u32;
    let mut listed: Vec<ListedWorker> = Vec::new();
    let mut i: usize = 0;
    while i < workers.len()
        invariant
            i <= workers@.len(),
            listed@.len() == i,
            forall|j: int| 0 <= j < workers@.len() ==> 0 <= #[trigger] workers@[j].last_heartbeat <= MAX_DURATION_NANOS,
            forall|j: int| 0 <= j < i ==> {
                &&& (#[trigger] listed@[j]).worker_name == workers@[j].worker_name
                &&& listed@[j].topic == workers@[j].topic
                &&& listed@[j].last_heartbeat == workers@[j].last_heartbeat / 1_000_000_000
            },
        decreases workers@.len() - i,
    {
        let w = &workers[i];
        listed.push(ListedWorker {
            worker_name: w.worker_name.clone(),
            topic: w.topic.clone(),
            last_heartbeat: epoch_seconds(w.last_heartbeat),
        });
        i = i + 1;
    }
    Ok((total, listed))
}

} // verus!
