use event_base::error::CoreError;
use event_base::message::{DeliveryMode, EMessage, MessagePayload, MessageTopic};
use event_base::topic::{broadcast_copy, plan_send, release_due, replay_step, send_mode, ReplayStep, SendMode, SendPlan, TopicTable};
use event_base::wal::{WalRecord, WalRecordState};
use event_base::worker_registry::{WorkerInfo, WorkerRegistry};
use event_base::NodeType;

fn msg(id: &str, topic: &str, mode: DeliveryMode) -> EMessage {
    EMessage::new_with(id.to_string(), 100, MessageTopic(topic.to_string()), MessagePayload(vec![7]), mode, None)
}

fn info(name: &str, topic: &str) -> WorkerInfo {
    WorkerInfo { worker_name: name.to_string(), topic: topic.to_string(), last_heartbeat: 0 }
}

#[test]
fn topic_table_registers_once_in_order() {
    let mut t = TopicTable::new();
    t.register_topic(&"b".to_string());
    t.register_topic(&"a".to_string());
    t.register_topic(&"b".to_string());
    assert_eq!(t.list_topics(), vec!["b".to_string(), "a".to_string()]);
    assert!(t.contains(&"a".to_string()));
    assert!(!t.contains(&"c".to_string()));
}

#[test]
fn topic_table_register_all_merges_new_topics() {
    let mut t = TopicTable::new();
    t.register_topic(&"x".to_string());
    t.register_all(&vec!["y".to_string(), "x".to_string(), "y".to_string(), "z".to_string()]);
    assert_eq!(t.list_topics(), vec!["x".to_string(), "y".to_string(), "z".to_string()]);
    let before = t.list_topics();
    t.register_all(&vec!["x".to_string(), "z".to_string()]);
    assert_eq!(t.list_topics(), before);
}

#[test]
fn send_mode_prefers_try_send_then_timeout() {
    assert_eq!(send_mode(Some(true), Some(5)), SendMode::TrySend);
    assert_eq!(send_mode(Some(false), Some(5)), SendMode::Timeout(5));
    assert_eq!(send_mode(None, None), SendMode::Send);
    assert_eq!(send_mode(Some(false), None), SendMode::Send);
}

#[test]
fn plan_send_plain_message_sets_topic() {
    let reg = WorkerRegistry::new();
    let m = msg("m1", "old", DeliveryMode::Standard);
    match plan_send(&"orders".to_string(), m, NodeType::Worker, false, &reg, None, Some(9)) {
        Ok(SendPlan::Deliver(v, mode)) => {
            assert_eq!(v.len(), 1);
            assert_eq!(v[0].topic.0, "orders");
            assert_eq!(v[0].id, "m1");
            assert_eq!(mode, SendMode::Timeout(9));
        }
        other => panic!("unexpected plan {:?}", other),
    }
}

#[test]
fn plan_send_delayed_message_is_scheduled() {
    let reg = WorkerRegistry::new();
    let mut m = msg("m2", "orders", DeliveryMode::Standard);
    m.deliver_at = Some(5000);
    match plan_send(&"orders".to_string(), m, NodeType::Host, true, &reg, None, None) {
        Ok(SendPlan::Schedule(rec)) => {
            assert_eq!(rec.message.id, "m2");
            assert_eq!(rec.record_id, 0);
            assert_eq!(rec.status, WalRecordState::Pending);
            assert!(!rec.is_dead_letter);
        }
        other => panic!("unexpected plan {:?}", other),
    }
}

#[test]
fn plan_send_delayed_message_needs_a_log() {
    let reg = WorkerRegistry::new();
    let mut m = msg("m3", "orders", DeliveryMode::Standard);
    m.deliver_at = Some(5000);
    let r = plan_send(&"orders".to_string(), m, NodeType::Host, false, &reg, None, None);
    assert!(matches!(r, Err(CoreError::Unsupported(ref s)) if s == "WAL not available"));
}

#[test]
fn plan_send_broadcast_refused_on_worker_node() {
    let reg = WorkerRegistry::new();
    let r = plan_send(&"orders".to_string(), msg("b", "orders", DeliveryMode::Broadcast), NodeType::Worker, true, &reg, None, None);
    assert!(matches!(r, Err(CoreError::Unsupported(ref s)) if s == "Unsupported node type, send broadcast message must host"));
}

#[test]
fn plan_send_broadcast_copies_per_worker() {
    let mut reg = WorkerRegistry::new();
    reg.register(info("w1", "orders"));
    reg.register(info("w2", "other"));
    reg.register(info("w3", "orders"));
    match plan_send(&"orders".to_string(), msg("b", "orders", DeliveryMode::Broadcast), NodeType::Host, true, &reg, Some(true), None) {
        Ok(SendPlan::Deliver(v, mode)) => {
            assert_eq!(mode, SendMode::TrySend);
            assert_eq!(v.len(), 2);
            assert_eq!(v[0].id, "b-w1");
            assert_eq!(v[0].to_worker, Some("w1".to_string()));
            assert_eq!(v[1].id, "b-w3");
            assert_eq!(v[1].to_worker, Some("w3".to_string()));
            assert_ne!(v[0].id, v[1].id);
        }
        other => panic!("unexpected plan {:?}", other),
    }
}

#[test]
fn broadcast_copy_keeps_the_rest() {
    let m = msg("id", "t", DeliveryMode::Broadcast);
    let c = broadcast_copy(&m, &"wk".to_string());
    assert_eq!(c.id, "id-wk");
    assert_eq!(c.topic.0, "t");
    assert_eq!(c.payload.0, vec![7]);
    assert_eq!(c.to_worker, Some("wk".to_string()));
}

#[test]
fn replay_step_filters_schedules_and_sends() {
    let filter = Some(vec!["a".to_string()]);
    let r = replay_step(&filter, WalRecord::from_msg(msg("1", "b", DeliveryMode::Standard)), 10);
    assert!(matches!(r, ReplayStep::Skip));

    let mut due_later = msg("2", "a", DeliveryMode::Standard);
    due_later.deliver_at = Some(50);
    match replay_step(&filter, WalRecord::from_msg(due_later), 10) {
        ReplayStep::Schedule(rec) => assert_eq!(rec.message.deliver_at, Some(50)),
        other => panic!("unexpected {:?}", other),
    }

    let mut due_now = msg("3", "a", DeliveryMode::Standard);
    due_now.deliver_at = Some(10);
    match replay_step(&None, WalRecord::from_msg(due_now), 10) {
        ReplayStep::Send(t, m) => {
            assert_eq!(t, "a");
            assert_eq!(m.deliver_at, None);
            assert_eq!(m.id, "3");
        }
        other => panic!("unexpected {:?}", other),
    }
}

#[test]
fn release_due_clears_delivery_time() {
    let mut m = msg("4", "q", DeliveryMode::Standard);
    m.deliver_at = Some(1);
    let (t, out) = release_due(WalRecord::from_msg(m));
    assert_eq!(t, "q");
    assert_eq!(out.deliver_at, None);
}
