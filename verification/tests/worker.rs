use event_base::audit::{AuditEventType, AuditResult};
use event_base::constant::SYSTEM_TOPIC_AUDIT;
use event_base::dead_letter::DeadReason;
use event_base::error::CoreError;
use event_base::handler::Ack;
use event_base::message::{DeliveryMode, EMessage, MessagePayload, MessageTopic};
use event_base::wal::WalRecordState;
use event_base::worker::{shutdown_should_wait, WorkerAction, WorkerCore, WorkerStatus};

fn worker_core(topic: &str) -> WorkerCore {
    WorkerCore::new_with(topic.to_string(), &"id".to_string(), Some(5), 50, None)
}

fn msg(topic: &str, mode: DeliveryMode) -> EMessage {
    EMessage::new_with("m".to_string(), 0, MessageTopic(topic.to_string()), MessagePayload(vec![]), mode, None)
}

fn wal_state(a: &WorkerAction) -> WalRecordState {
    match a {
        WorkerAction::Wal(m) => m.status,
        other => panic!("not a log update: {:?}", other),
    }
}

#[test]
fn worker_core_names_and_settings() {
    let w = worker_core("orders");
    assert_eq!(w.name(), "worker-orders-id");
    assert_eq!(w.topic(), "orders");
    assert_eq!(w.time_out(), Some(5));
    assert_eq!(w.shutdown_check_interval(), 50);
    assert_eq!(w.shutdown_timeout(), None);
    assert!(!w.is_system());
    assert!(worker_core("_system.trace").is_system());
    assert!(worker_core(SYSTEM_TOPIC_AUDIT).is_audit_worker());
    assert_eq!(w.dead_letter_topic_name(), "dead_letter.orders");
    let fresh = WorkerCore::new("t".to_string(), None, 1, None);
    assert_eq!(fresh.name().chars().count(), "worker-t-".len() + 36);
}

#[test]
fn worker_begin_audits_and_marks_processing() {
    let w = worker_core("orders");
    let v = w.begin(&msg("orders", DeliveryMode::Standard), 9);
    assert_eq!(v.len(), 2);
    match &v[0] {
        WorkerAction::Audit(r) => {
            assert_eq!(r.event_type, AuditEventType::ProcessingStarted);
            assert_eq!(r.result, AuditResult::Start);
            assert_eq!(r.worker_id, Some("worker-orders-id".to_string()));
            assert_eq!(r.timestamp, 9);
        }
        other => panic!("unexpected {:?}", other),
    }
    assert_eq!(wal_state(&v[1]), WalRecordState::Processing);
    assert!(worker_core("_system.shutdown").begin(&msg("x", DeliveryMode::Standard), 0).is_empty());
}

#[test]
fn worker_finish_ack_completes() {
    let w = worker_core("orders");
    let v = w.finish(msg("orders", DeliveryMode::Standard), Ack::Ack, 10, 25, 30).unwrap();
    assert_eq!(v.len(), 2);
    match &v[0] {
        WorkerAction::Audit(r) => {
            assert_eq!(r.event_type, AuditEventType::ProcessingCompleted);
            assert_eq!(r.duration, Some(15));
        }
        other => panic!("unexpected {:?}", other),
    }
    assert_eq!(wal_state(&v[1]), WalRecordState::Complete);
}

#[test]
fn worker_finish_repeated_requeues_until_done() {
    let w = worker_core("orders");
    let v = w.finish(msg("orders", DeliveryMode::Repeated(3)), Ack::Ack, 0, 1, 2).unwrap();
    assert_eq!(v.len(), 3);
    match &v[2] {
        WorkerAction::Requeue(m) => assert_eq!(m.consumed_count, 1),
        other => panic!("unexpected {:?}", other),
    }
    let mut last = msg("orders", DeliveryMode::Repeated(3));
    last.consumed_count = 2;
    let v = w.finish(last, Ack::Ack, 0, 1, 2).unwrap();
    assert_eq!(v.len(), 1);
    assert_eq!(wal_state(&v[0]), WalRecordState::Complete);
}

#[test]
fn worker_finish_noack_retries_later() {
    let w = worker_core("orders");
    let ack = Ack::NoAck { retry_after: Some(100), max_retries: 3 };
    let v = w.finish(msg("orders", DeliveryMode::Standard), ack, 0, 1, 1000).unwrap();
    assert_eq!(v.len(), 2);
    assert_eq!(wal_state(&v[0]), WalRecordState::Pending);
    match &v[1] {
        WorkerAction::Route(t, m) => {
            assert_eq!(t, "orders");
            assert_eq!(m.attempts, 1);
            assert_eq!(m.deliver_at, Some(1100));
        }
        other => panic!("unexpected {:?}", other),
    }
    let v = w.finish(msg("orders", DeliveryMode::Standard), Ack::NoAck { retry_after: None, max_retries: 3 }, 0, 1, 1).unwrap();
    assert!(matches!(&v[1], WorkerAction::Requeue(m) if m.attempts == 1));
}

#[test]
fn worker_finish_noack_dead_letters_after_max() {
    let w = worker_core("orders");
    let mut m = msg("orders", DeliveryMode::Standard);
    m.attempts = 2;
    let v = w.finish(m, Ack::NoAck { retry_after: None, max_retries: 3 }, 0, 4, 9).unwrap();
    assert!(matches!(&v[1], WorkerAction::Requeue(x) if x.attempts == 3));
    let mut m = msg("orders", DeliveryMode::Standard);
    m.attempts = 3;
    let v = w.finish(m, Ack::NoAck { retry_after: None, max_retries: 3 }, 0, 4, 9).unwrap();
    assert_eq!(v.len(), 4);
    match &v[1] {
        WorkerAction::Wal(u) => {
            assert_eq!(u.status, WalRecordState::Failed);
            assert_eq!(u.topic, "dead_letter.orders");
            assert_eq!(u.error, Some("Max Retries exceeded".to_string()));
            assert_eq!(u.attempts, 4);
        }
        other => panic!("unexpected {:?}", other),
    }
    assert!(matches!(&v[2], WorkerAction::Route(t, x) if t == "dead_letter.orders" && x.topic.0 == "dead_letter.orders"));
    assert!(matches!(&v[3], WorkerAction::Audit(r) if r.result == AuditResult::Dead && r.duration == Some(4)));
}

#[test]
fn worker_finish_dead_on_audit_topic() {
    let w = worker_core(SYSTEM_TOPIC_AUDIT);
    let v = w.finish(msg(SYSTEM_TOPIC_AUDIT, DeliveryMode::Standard), Ack::Dead { dead_reason: DeadReason::Timeout }, 0, 0, 0).unwrap();
    assert!(v.is_empty());
    let w = worker_core("pay");
    let v = w.finish(msg("pay", DeliveryMode::Standard), Ack::Dead { dead_reason: DeadReason::Timeout }, 0, 0, 0).unwrap();
    assert_eq!(v.len(), 4);
    assert!(matches!(&v[0], WorkerAction::Wal(u) if u.error == Some("Handler Timeout".to_string())));
    assert!(matches!(&v[1], WorkerAction::Wal(u) if u.error == Some("Handler Timeout".to_string())));
    let v = w.finish(msg("pay", DeliveryMode::Standard), Ack::Dead { dead_reason: DeadReason::Explicit }, 0, 0, 0).unwrap();
    assert!(matches!(&v[1], WorkerAction::Wal(u) if u.error == Some("Handler Explicit".to_string())));
}

#[test]
fn worker_finish_clock_backwards_is_an_error() {
    let w = worker_core("orders");
    let r = w.finish(msg("orders", DeliveryMode::Standard), Ack::Ack, 50, 20, 60);
    assert!(matches!(r, Err(CoreError::ProcessTimeError(30))));
}

#[test]
fn worker_generate_audit_msg_fields() {
    let w = worker_core("orders");
    let r = w.generate_audit_msg(&msg("orders", DeliveryMode::Standard), AuditResult::Retry,
        AuditEventType::Retry, Some("e".to_string()), Some(3), 77);
    assert_eq!(r.message_id, "m");
    assert_eq!(r.topic, "orders");
    assert_eq!(r.error, Some("e".to_string()));
    assert_eq!(r.duration, Some(3));
    assert_eq!(r.timestamp, 77);
}

#[test]
fn shutdown_waits_only_while_working_within_limit() {
    assert!(!shutdown_should_wait(WorkerStatus::Idle, 0, 10, None));
    assert!(shutdown_should_wait(WorkerStatus::Working, 0, 10, None));
    assert!(shutdown_should_wait(WorkerStatus::Working, 0, 10, Some(10)));
    assert!(!shutdown_should_wait(WorkerStatus::Working, 0, 11, Some(10)));
    assert!(shutdown_should_wait(WorkerStatus::Working, 20, 10, Some(0)));
}

#[test]
fn worker_allows_max_retries_retries() {
    let w = worker_core("orders");
    let mut m = msg("orders", DeliveryMode::Standard);
    let mut retries = 0;
    loop {
        let v = w.finish(m, Ack::NoAck { retry_after: None, max_retries: 2 }, 0, 1, 1).unwrap();
        match v.into_iter().nth(1).unwrap() {
            WorkerAction::Requeue(next) => {
                retries += 1;
                m = next;
            }
            WorkerAction::Wal(u) => {
                assert_eq!(u.error, Some("Max Retries exceeded".to_string()));
                break;
            }
            other => panic!("unexpected {:?}", other),
        }
    }
    assert_eq!(retries, 2);
}

#[test]
fn worker_dead_with_own_reason_is_dead_lettered_as_explicit() {
    let w = worker_core("pay");
    let v = w.finish(msg("pay", DeliveryMode::Standard), Ack::Dead { dead_reason: DeadReason::Other("bad".to_string()) }, 0, 0, 0).unwrap();
    assert!(matches!(&v[0], WorkerAction::Wal(u) if u.error == Some("Handler Other Error: bad".to_string())));
    assert!(matches!(&v[1], WorkerAction::Wal(u) if u.error == Some("Handler Explicit".to_string())));
}
