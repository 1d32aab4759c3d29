use event_base::shutdown::{
    batch_ranges, stops_when, two_stage_step, ShutdownAck, ShutdownCommand, ShutdownPlan, ShutdownStatus,
    ShutdownStrategy, TwoStageStep,
};
use event_base::worker::WorkerStatus;

#[test]
fn shutdown_plan_converts_spans() {
    let p = ShutdownCommand { strategy: ShutdownStrategy::TwoStage { poll_interval_ms: 20, force_timeout_secs: 3 } }.plan();
    assert!(matches!(p, ShutdownPlan::TwoStage { timeout: 3_000_000_000, poll_interval: 20_000_000 }));
    let p = ShutdownCommand { strategy: ShutdownStrategy::Graceful { worker_name: "w".to_string(), poll_interval_ms: 1 } }.plan();
    assert!(matches!(p, ShutdownPlan::Graceful { ref worker_name, poll_interval: 1_000_000 } if worker_name == "w"));
    let p = ShutdownCommand { strategy: ShutdownStrategy::Timeout { total_timeout_secs: 2 } }.plan();
    assert!(matches!(p, ShutdownPlan::Timeout { timeout: 2_000_000_000 }));
    assert!(matches!(ShutdownCommand { strategy: ShutdownStrategy::Force }.plan(), ShutdownPlan::Force));
    assert!(matches!(ShutdownCommand { strategy: ShutdownStrategy::StateBasedIdle }.plan(), ShutdownPlan::IdleOnly));
    let p = ShutdownCommand { strategy: ShutdownStrategy::Batched { batch_size: 4, interval_ms: 5 } }.plan();
    assert!(matches!(p, ShutdownPlan::Batched { batch_size: 4, interval: 5_000_000 }));
}

#[test]
fn shutdown_two_stage_steps() {
    assert_eq!(two_stage_step(false, 3, true), TwoStageStep::Force);
    assert_eq!(two_stage_step(true, 0, false), TwoStageStep::Done);
    assert_eq!(two_stage_step(true, 2, true), TwoStageStep::RemoveAll);
    assert_eq!(two_stage_step(true, 2, false), TwoStageStep::Wait);
}

#[test]
fn shutdown_stops_only_idle() {
    assert!(stops_when(WorkerStatus::Idle));
    assert!(!stops_when(WorkerStatus::Working));
}

#[test]
fn shutdown_batches_cover_in_order() {
    assert_eq!(batch_ranges(0, 3), vec![]);
    assert_eq!(batch_ranges(7, 3), vec![(0, 3), (3, 6), (6, 7)]);
    assert_eq!(batch_ranges(6, 3), vec![(0, 3), (3, 6)]);
    assert_eq!(batch_ranges(2, 5), vec![(0, 2)]);
}

#[test]
fn shutdown_ack_completed() {
    let a = ShutdownAck::completed("w".to_string(), 12);
    assert_eq!(a.worker_name, "w");
    assert_eq!(a.status, ShutdownStatus::Completed);
    assert_eq!(a.timestamp, 12);
    assert!(a.error.is_none());
}
