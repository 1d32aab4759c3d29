use event_base::control::{epoch_seconds, shutdown_command_for, worker_listing, ControlRefusal, RequestedStrategy};
use event_base::shutdown::ShutdownStrategy;
use event_base::worker_registry::WorkerInfo;
use event_base::NodeType;

#[test]
fn control_shutdown_without_strategy_is_refused() {
    let r = shutdown_command_for(None);
    assert!(matches!(r, Err(ControlRefusal::InvalidArgument(ref s)) if s == "No shutdown requested"));
    let r = shutdown_command_for(Some(RequestedStrategy::Other));
    assert!(matches!(r, Err(ControlRefusal::InvalidArgument(ref s)) if s == "Invalid strategy"));
}

#[test]
fn control_shutdown_strategies_carry_settings() {
    let c = shutdown_command_for(Some(RequestedStrategy::Batched { batch_size: 4, interval_ms: 9 })).unwrap();
    assert!(matches!(c.strategy, ShutdownStrategy::Batched { batch_size: 4, interval_ms: 9 }));
    let c = shutdown_command_for(Some(RequestedStrategy::TwoStage { poll_interval_ms: 1, force_timeout_secs: 2 })).unwrap();
    assert!(matches!(c.strategy, ShutdownStrategy::TwoStage { poll_interval_ms: 1, force_timeout_secs: 2 }));
    let c = shutdown_command_for(Some(RequestedStrategy::Graceful { worker_name: "w".to_string(), poll_interval_ms: 3 })).unwrap();
    assert!(matches!(c.strategy, ShutdownStrategy::Graceful { ref worker_name, poll_interval_ms: 3 } if worker_name == "w"));
    assert!(matches!(shutdown_command_for(Some(RequestedStrategy::Force)).unwrap().strategy, ShutdownStrategy::Force));
    assert!(matches!(shutdown_command_for(Some(RequestedStrategy::StateBasedIdle)).unwrap().strategy, ShutdownStrategy::StateBasedIdle));
}

#[test]
fn control_epoch_seconds_truncates() {
    assert_eq!(epoch_seconds(0), 0);
    assert_eq!(epoch_seconds(2_999_999_999), 2);
    assert_eq!(epoch_seconds(3_000_000_000), 3);
}

#[test]
fn control_worker_listing() {
    let ws = vec![
        WorkerInfo { worker_name: "a".to_string(), topic: "t".to_string(), last_heartbeat: 5_500_000_000 },
        WorkerInfo { worker_name: "b".to_string(), topic: "u".to_string(), last_heartbeat: 0 },
    ];
    let (total, listed) = worker_listing(NodeType::Host, ws).unwrap();
    assert_eq!(total, 2);
    assert_eq!(listed[0].worker_name, "a");
    assert_eq!(listed[0].last_heartbeat, 5);
    assert_eq!(listed[1].topic, "u");
    let r = worker_listing(NodeType::Worker, vec![]);
    assert!(matches!(r, Err(ControlRefusal::InvalidArgument(ref s)) if s == "Worker type is not supported"));
}
