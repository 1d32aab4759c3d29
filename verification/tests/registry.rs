use event_base::error::CoreError;
use event_base::system_handlers::{ShutdownAckHandler, WorkerDiscoveryHandler, WorkerHeartbeatHandler};
use event_base::shutdown::ShutdownAck;
use event_base::worker_registry::{WorkerDiscoveryMessage, WorkerHeartbeatMessage, WorkerInfo, WorkerRegistry};

fn info(name: &str, topic: &str, at: i128) -> WorkerInfo {
    WorkerInfo { worker_name: name.to_string(), topic: topic.to_string(), last_heartbeat: at }
}

fn names(v: &[WorkerInfo]) -> Vec<String> {
    v.iter().map(|w| w.worker_name.clone()).collect()
}

#[test]
fn registry_register_and_query() {
    let mut r = WorkerRegistry::new();
    r.register(info("a", "t1", 1));
    r.register(info("b", "t2", 2));
    r.register(info("c", "t1", 3));
    assert_eq!(names(&r.get_workers(&"t1".to_string())), vec!["a", "c"]);
    assert_eq!(names(&r.get_all_workers()), vec!["a", "b", "c"]);
    r.register(info("a", "t2", 9));
    assert_eq!(names(&r.get_workers(&"t1".to_string())), vec!["c"]);
    assert_eq!(r.get_all_workers().len(), 3);
}

#[test]
fn registry_unregister_removes() {
    let mut r = WorkerRegistry::new();
    r.register(info("a", "t", 1));
    r.unregister(&"a".to_string());
    r.unregister(&"missing".to_string());
    assert!(r.get_all_workers().is_empty());
}

#[test]
fn registry_heartbeat_updates_or_fails() {
    let mut r = WorkerRegistry::new();
    r.register(info("a", "t", 1));
    assert_eq!(r.heartbeat_at(&"a".to_string(), 77), Ok(()));
    assert_eq!(r.get_all_workers()[0].last_heartbeat, 77);
    assert_eq!(r.heartbeat_at(&"zz".to_string(), 5), Err(CoreError::WorkerNotFound("zz".to_string())));
}

#[test]
fn registry_cleanup_stale_splits_workers() {
    let mut r = WorkerRegistry::new();
    r.register(info("old", "t", 0));
    r.register(info("fresh", "t", 900));
    r.register(info("edge", "t", 500));
    r.register(info("future", "t", 2000));
    let removed = r.cleanup_stale_at(1000, 500);
    assert_eq!(removed, vec!["old".to_string()]);
    assert_eq!(names(&r.get_all_workers()), vec!["fresh", "edge", "future"]);
}

#[test]
fn registry_entries_roundtrip() {
    let mut r = WorkerRegistry::new();
    r.register(info("a", "t", 1));
    r.register(info("b", "u", 2));
    let again = WorkerRegistry::load(r.entries());
    assert_eq!(names(&again.get_all_workers()), names(&r.get_all_workers()));
    assert_eq!(again.get_workers(&"u".to_string())[0].last_heartbeat, 2);
}

#[test]
fn discovery_and_ack_handlers_maintain_registry() {
    let mut r = WorkerRegistry::new();
    let h = WorkerDiscoveryHandler {};
    let w = h.worker_info(
        WorkerDiscoveryMessage { worker_name: "w".to_string(), topic: "t".to_string(), started_at: 3 },
        44,
    );
    assert_eq!(w.last_heartbeat, 44);
    h.apply(&mut r, WorkerDiscoveryMessage { worker_name: "w".to_string(), topic: "t".to_string(), started_at: 3 });
    assert_eq!(names(&r.get_workers(&"t".to_string())), vec!["w"]);
    let hb = WorkerHeartbeatHandler {};
    assert!(hb.apply(&mut r, &WorkerHeartbeatMessage { worker_name: "w".to_string(), timestamp: 0 }).is_ok());
    assert_eq!(
        hb.apply(&mut r, &WorkerHeartbeatMessage { worker_name: "x".to_string(), timestamp: 0 }),
        Err(CoreError::WorkerNotFound("x".to_string()))
    );
    ShutdownAckHandler.apply(&mut r, &ShutdownAck::completed("w".to_string(), 5));
    assert!(r.get_all_workers().is_empty());
}
