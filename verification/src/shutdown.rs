//! Shutdown commands, acknowledgments and the decisions of the shutdown
//! strategies.

use vstd::prelude::*;
use crate::time::{Nanos, Timestamp};
use crate::worker::WorkerStatus;

verus! {

/// How workers are to be shut down.
#[derive(Debug)]
pub enum ShutdownStrategy {
    /// Signal all workers, wait for them, then force the rest.
    TwoStage {
        /// Polling interval while waiting, in milliseconds.
        poll_interval_ms: u64,
        /// Time before forcing, in seconds.
        force_timeout_secs: u64,
    },
    /// Stop one worker once it is idle.
    Graceful {
        /// The worker.
        worker_name: String,
        /// Polling interval, in milliseconds.
        poll_interval_ms: u64,
    },
    /// Stop every worker at once.
    Force,
    /// Wait, then stop every worker.
    Timeout {
        /// The wait, in seconds.
        total_timeout_secs: u64,
    },
    /// Stop only the idle workers.
    StateBasedIdle,
    /// Stop workers in batches.
    Batched {
        /// Workers per batch.
        batch_size: usize,
        /// Pause between batches, in milliseconds.
        interval_ms: u64,
    },
}

/// A request to shut down with a strategy.
#[derive(Debug)]
pub struct ShutdownCommand {
    /// The strategy.
    pub strategy: ShutdownStrategy,
}

/// A worker's report that it has shut down.
#[derive(Debug)]
pub struct ShutdownAck {
    /// The worker.
    pub worker_name: String,
    /// How it went.
    pub status: ShutdownStatus,
    /// When it was sent.
    pub timestamp: Timestamp,
    /// Error text, if it failed.
    pub error: Option<String>,
}

/// Final state of a worker's shutdown.
#[derive(Debug, Clone, Copy, PartialEq, Eq, Structural)]
pub enum ShutdownStatus {
    /// Completed.
    Completed,
    /// Failed.
    Failed,
    /// Timed out and was forced.
    Timeout,
}

/// A shutdown strategy with its spans in nanoseconds, ready to run.
#[derive(Debug)]
pub enum ShutdownPlan {
    /// Signal, wait up to `timeout` polling every `poll_interval`, then force.
    TwoStage { timeout: Nanos, poll_interval: Nanos },
    /// Stop the named worker once idle, polling every `poll_interval`.
    Graceful { worker_name: String, poll_interval: Nanos },
    /// Wait `timeout`, then stop every worker.
    Timeout { timeout: Nanos },
    /// Stop every worker at once.
    Force,
    /// Stop only the idle workers.
    IdleOnly,
    /// Stop workers `batch_size` at a time, pausing `interval` between batches.
    Batched { batch_size: usize, interval: Nanos },
}

/// Nanoseconds in `ms` milliseconds.
pub open spec fn millis(ms: u64) -> Nanos {
    (ms * 1_000_000) as u128
}

/// Nanoseconds in `s` seconds.
pub open spec fn secs(s: u64) -> Nanos {
    (s * 1_000_000_000) as u128
}

impl ShutdownCommand {
    /// The plan the command asks for, with its spans converted from
    /// milliseconds and seconds to nanoseconds.
    pub fn plan(self) -> (p: ShutdownPlan)
        ensures
            match self.strategy {
                ShutdownStrategy::TwoStage { poll_interval_ms, force_timeout_secs } =>
                    p == ShutdownPlan::TwoStage { timeout: secs(force_timeout_secs), poll_interval: millis(poll_interval_ms) },
                ShutdownStrategy::Graceful { worker_name, poll_interval_ms } =>
                    p == ShutdownPlan::Graceful { worker_name, poll_interval: millis(poll_interval_ms) },
                ShutdownStrategy::Force => p == ShutdownPlan::Force,
                ShutdownStrategy::Timeout { total_timeout_secs } =>
                    p == ShutdownPlan::Timeout { timeout: secs(total_timeout_secs) },
                ShutdownStrategy::StateBasedIdle => p == ShutdownPlan::IdleOnly,
                ShutdownStrategy::Batched { batch_size, interval_ms } =>
                    p == ShutdownPlan::Batched { batch_size, interval: millis(interval_ms) },
            },
    {
        match self.strategy {
            ShutdownStrategy::TwoStage { poll_interval_ms, force_timeout_secs } => ShutdownPlan::TwoStage {
                timeout: force_timeout_secs as u128 * 1_000_000_000,
                poll_interval: poll_interval_ms as u128 * 1_000_000,
            },
            ShutdownStrategy::Graceful { worker_name, poll_interval_ms } => ShutdownPlan::Graceful {
                worker_name,
                poll_interval: poll_interval_ms as u128 * 1_000_000,
            },
            ShutdownStrategy::Force => ShutdownPlan::Force,
            ShutdownStrategy::Timeout { total_timeout_secs } => ShutdownPlan::Timeout {
                timeout: total_timeout_secs as u128 * 1_000_000_000,
            },
            ShutdownStrategy::StateBasedIdle => ShutdownPlan::IdleOnly,
            ShutdownStrategy::Batched { batch_size, interval_ms } => ShutdownPlan::Batched {
                batch_size,
                interval: interval_ms as u128 * 1_000_000,
            },
        }
    }
}

impl ShutdownAck {
    /// The report of a worker that finished shutting down at `now`.
    pub fn completed(worker_name: String, now: Timestamp) -> (a: ShutdownAck)
        ensures
            a.worker_name == worker_name,
            a.status == ShutdownStatus::Completed,
            a.timestamp == now,
            a.error is None,
    {
        ShutdownAck { worker_name, status: ShutdownStatus::Completed, timestamp: now, error: None }
    }
}

/// What a two-stage shutdown does next.
#[derive(Debug, Clone, Copy, PartialEq, Eq, Structural)]
pub enum TwoStageStep {
    /// No workers are left: done.
    Done,
    /// Every worker finished: remove them all, then done.
    RemoveAll,
    /// Wait one polling interval and look again.
    Wait,
    /// Time is up: force every remaining worker down and remove it.
    Force,
}

/// The next step of a two-stage shutdown, given whether time remains,
/// how many workers remain and whether all of them have finished.
pub fn two_stage_step(time_left: bool, workers: usize, all_done: bool) -> (s: TwoStageStep)
    ensures
        !time_left ==> s == TwoStageStep::Force,
        time_left && workers == 0 ==> s == TwoStageStep::Done,
        time_left && workers > 0 && all_done ==> s == TwoStageStep::RemoveAll,
        time_left && workers > 0 && !all_done ==> s == TwoStageStep::Wait,
{
    if !time_left {
        TwoStageStep::Force
    } else if workers == 0 {
        TwoStageStep::Done
    } else if all_done {
        TwoStageStep::RemoveAll
    } else {
        TwoStageStep::Wait
    }
}

/// Whether an idle-only or graceful shutdown stops a worker in `status`:
/// exactly when it is idle.
pub fn stops_when(status: WorkerStatus) -> (b: bool)
    ensures
        b == (status == WorkerStatus::Idle),
{
    status == WorkerStatus::Idle
}

/// The batches of a batched shutdown of `n` workers: consecutive
/// half-open ranges of `batch_size` positions, the last one possibly
/// shorter, covering `0..n` in order.
pub fn batch_ranges(n: usize, batch_size: usize) -> (v: Vec<(usize, usize)>)
    requires
        batch_size > 0,
    ensures
        v@.len() == (if n == 0 { 0int } else { (n - 1) / (batch_size as int) + 1 }),
        forall|i: int| 0 <= i < v@.len() ==> (#[trigger] v@[i]).0 == i * batch_size
            && v@[i].1 == (if (i + 1) * batch_size < n { (i + 1) * batch_size } else { n as int }),
{
    let mut v: Vec<(usize, usize)> = Vec::new();
    let mut start: usize = 0;
    assert(v@.len() * batch_size == 0) by (nonlinear_arith)
        requires v@.len() == 0;
    while start < n
        invariant
            batch_size > 0,
            start <= n,
            start == v@.len() * batch_size,
            v@.len() == (if start == 0 { 0int } else { (start - 1) / (batch_size as int) + 1 }),
            forall|i: int| 0 <= i < v@.len() ==> (#[trigger] v@[i]).0 == i * batch_size
                && v@[i].1 == (if (i + 1) * batch_size < n { (i + 1) * batch_size } else { n as int }),
        decreases n - start,
    {
        let end = if batch_size < n - start { start + batch_size } else { n };
        proof {
            let k = v@.len() as int;
            assert((k + 1) * batch_size == k * batch_size + batch_size) by (nonlinear_arith);
        }
        v.push((start, end));
        if end == n {
            proof {
                let k = (v@.len() - 1) as int;
                assert(start == k * batch_size);
                assert((n - 1) / (batch_size as int) == k) by (nonlinear_arith)
                    requires start == k * batch_size, start < n, n <= start + batch_size, batch_size > 0, k >= 0;
            }
            return v;
        }
        proof {
            let k = (v@.len() - 1) as int;
            assert((end - 1) / (batch_size as int) == k) by (nonlinear_arith)
                requires start == k * batch_size, end == start + batch_size, batch_size > 0, k >= 0;
        }
        start = end;
    }
    v
}

/// Batches cover every worker exactly once: position `i` of `n` lies in
/// batch `i / batch_size` (as `batch_ranges` lays the batches out) and in
/// no other batch.
pub proof fn lemma_batches_partition(n: int, batch_size: int, i: int, k: int)
    requires
        batch_size > 0,
        0 <= i < n,
        0 <= k < (n - 1) / batch_size + 1,
    ensures
        (k * batch_size <= i < (if (k + 1) * batch_size < n { (k + 1) * batch_size } else { n }))
            <==> k == i / batch_size,
        i / batch_size < (n - 1) / batch_size + 1,
{
    let q = i / batch_size;
    assert(q * batch_size <= i < (q + 1) * batch_size) by (nonlinear_arith)
        requires batch_size > 0, q == i / batch_size, i >= 0;
    assert(q <= (n - 1) / batch_size) by (nonlinear_arith)
        requires batch_size > 0, q == i / batch_size, 0 <= i, i <= n - 1;
    if k < q {
        assert((k + 1) * batch_size <= q * batch_size) by (nonlinear_arith)
            requires k + 1 <= q, batch_size > 0;
    }
    if k > q {
        assert(k * batch_size >= (q + 1) * batch_size) by (nonlinear_arith)
            requires k >= q + 1, batch_size > 0;
    }
}

} // verus!
