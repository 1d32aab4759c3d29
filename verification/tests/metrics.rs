use event_base::audit::{AuditBuffer, AuditEventType, AuditRecord, AuditResult};
use event_base::metrics::aggregator::MetricsAggregator;
use event_base::system_handlers::{AuditHandler, MetricsHandler};

fn rec(id: &str, topic: &str, e: AuditEventType, d: Option<u128>) -> AuditRecord {
    AuditRecord {
        message_id: id.to_string(),
        topic: topic.to_string(),
        event_type: e,
        worker_id: None,
        timestamp: 0,
        result: AuditResult::Success,
        error: None,
        duration: d,
    }
}

fn count(m: &event_base::strmap::StrMap<u64>, k: &str) -> Option<u64> {
    m.get(&k.to_string()).copied()
}

#[test]
fn aggregator_counts_per_topic() {
    let mut a = MetricsAggregator::new();
    for r in [
        rec("1", "t", AuditEventType::Enqueued, None),
        rec("2", "t", AuditEventType::Enqueued, None),
        rec("3", "u", AuditEventType::Enqueued, None),
        rec("4", "t", AuditEventType::Retry, None),
        rec("5", "t", AuditEventType::DeadLettered, None),
        rec("6", "t", AuditEventType::ProcessingStarted, None),
        rec("7", "t", AuditEventType::ProcessingCompleted, Some(10)),
        rec("8", "t", AuditEventType::ProcessingCompleted, Some(30)),
        rec("9", "t", AuditEventType::ProcessingCompleted, None),
    ] {
        assert!(a.can_feed(&r));
        a.feed(&r);
    }
    assert_eq!(count(&a.enqueued, "t"), Some(2));
    assert_eq!(count(&a.enqueued, "u"), Some(1));
    assert_eq!(count(&a.retried, "t"), Some(1));
    assert_eq!(count(&a.failed, "t"), Some(1));
    assert_eq!(count(&a.completed, "t"), Some(3));
    assert_eq!(a.latency_sum.get(&"t".to_string()).copied(), Some((2, 40)));
    let s = a.snapshot();
    assert_eq!(count(&s.completed, "t"), Some(3));
    assert_eq!(count(&s.completed, "u"), None);
}

#[test]
fn aggregator_refuses_overflow() {
    let mut a = MetricsAggregator::new();
    a.enqueued.insert("t".to_string(), u64::MAX);
    assert!(!a.can_feed(&rec("1", "t", AuditEventType::Enqueued, None)));
    assert!(a.can_feed(&rec("1", "t", AuditEventType::ProcessingStarted, None)));
}

#[test]
fn audit_buffer_keeps_most_recent() {
    let mut b = AuditBuffer::new(2);
    b.record(rec("a", "t", AuditEventType::Enqueued, None));
    b.record(rec("b", "t", AuditEventType::Enqueued, None));
    AuditHandler {}.apply(&mut b, rec("c", "t", AuditEventType::Enqueued, None));
    let recent: Vec<String> = b.get_recent(5).into_iter().map(|r| r.message_id).collect();
    assert_eq!(recent, vec!["c".to_string(), "b".to_string()]);
    let one: Vec<String> = b.get_recent(1).into_iter().map(|r| r.message_id).collect();
    assert_eq!(one, vec!["c".to_string()]);
    assert!(b.get_recent(0).is_empty());
}

#[test]
fn audit_record_duplicate_is_equal_fieldwise() {
    let r = rec("x", "t", AuditEventType::Retry, Some(4));
    let d = r.duplicate();
    assert_eq!(d.message_id, r.message_id);
    assert_eq!(d.event_type, r.event_type);
    assert_eq!(d.duration, r.duration);
}

#[test]
fn metrics_handler_keeps_latest_sample() {
    let mut store: event_base::strmap::StrMap<u32> = event_base::strmap::StrMap::new();
    MetricsHandler {}.apply(&mut store, "n1".to_string(), 1);
    MetricsHandler {}.apply(&mut store, "n2".to_string(), 2);
    MetricsHandler {}.apply(&mut store, "n1".to_string(), 3);
    assert_eq!(store.len(), 2);
    assert_eq!(store.get(&"n1".to_string()), Some(&3));
}
