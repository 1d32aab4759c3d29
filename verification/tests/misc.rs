use event_base::constant::{SYSTEM_TOPIC_AUDIT, SYSTEM_TOPIC_TOPIC_SYNC, SYSTEM_WORKER_COUNT};
use event_base::dead_letter::DeadReason;
use event_base::message::{DeliveryMode, EMessage, MessagePayload, MessageTopic};
use event_base::middleware::{Pipeline, Step};
use event_base::strmap::StrMap;
use event_base::system_handlers::{
    system_plan, SystemStep, SystemTopic, TopicDiscovery, TopicDiscoveryMessage, TopicSync, TopicSyncMessage,
};
use event_base::text::{equals_str, starts_with};
use event_base::time::{add_delay, elapsed, instant_from_offset, now, MAX_INSTANT};
use event_base::topic::TopicTable;
use event_base::wal::{WalClient, WalRecord, WalRecordState};
use event_base::NodeType;

#[test]
fn time_add_delay_and_elapsed() {
    assert_eq!(add_delay(100, 50), Some(150));
    assert_eq!(add_delay(MAX_INSTANT, 1), None);
    assert_eq!(add_delay(MAX_INSTANT - 5, 5), Some(MAX_INSTANT));
    assert_eq!(elapsed(150, 100), Ok(50));
    assert_eq!(elapsed(100, 150), Err(50));
    let later = add_delay(-20, 70).unwrap();
    assert_eq!(elapsed(later, -20), Ok(70));
}

#[test]
fn time_instant_from_offset_signs() {
    assert_eq!(instant_from_offset(Ok(5)), 5);
    assert_eq!(instant_from_offset(Err(5)), -5);
    assert!(now() > 0);
}

#[test]
fn text_helpers() {
    assert!(starts_with(&"_system.audit".to_string(), "_system."));
    assert!(!starts_with(&"_sys".to_string(), "_system."));
    assert!(starts_with(&"abc".to_string(), ""));
    assert!(equals_str(&SYSTEM_TOPIC_AUDIT.to_string(), "_system.audit"));
    assert!(!equals_str(&"ab".to_string(), "abc"));
}

#[test]
fn dead_reason_descriptions() {
    assert_eq!(DeadReason::MaxRetriesExceeded.describe(), "Max Retries exceeded");
    assert_eq!(DeadReason::Explicit.describe(), "Handler Explicit");
    assert_eq!(DeadReason::Timeout.describe(), "Handler Timeout");
    assert_eq!(DeadReason::NoHandler.describe(), "NoHandler");
    assert_eq!(DeadReason::Other("boom".to_string()).describe(), "Handler Other Error: boom");
    assert_eq!(DeadReason::Other("x".to_string()).duplicate(), DeadReason::Other("x".to_string()));
}

#[test]
fn strmap_insert_get_remove() {
    let mut m: StrMap<u32> = StrMap::new();
    m.insert("a".to_string(), 1);
    m.insert("b".to_string(), 2);
    m.insert("a".to_string(), 3);
    assert_eq!(m.len(), 2);
    assert_eq!(m.get(&"a".to_string()), Some(&3));
    assert_eq!(m.key_at(0), "a");
    assert_eq!(m.value_at(1), &2);
    assert_eq!(m.position(&"b".to_string()), Some(1));
    assert_eq!(m.remove(&"a".to_string()), Some(3));
    assert_eq!(m.remove(&"a".to_string()), None);
    assert!(!m.contains_key(&"a".to_string()));
    assert_eq!(m.len(), 1);
    let d = m.duplicate();
    assert_eq!(d.get(&"b".to_string()), Some(&2));
}

#[test]
fn system_plan_worker_node() {
    let v = system_plan(NodeType::Worker, true, true);
    assert_eq!(v, vec![
        SystemStep::Register(SystemTopic::Shutdown),
        SystemStep::Register(SystemTopic::TopicSync),
        SystemStep::Register(SystemTopic::Metrics),
        SystemStep::StartCollector,
    ]);
}

#[test]
fn system_plan_host_node() {
    let without = system_plan(NodeType::Host, false, false);
    assert_eq!(without.len(), 15);
    assert_eq!(without[0], SystemStep::Register(SystemTopic::WorkerDiscovery));
    assert_eq!(without[1], SystemStep::SpawnWorkers(SystemTopic::WorkerDiscovery, SYSTEM_WORKER_COUNT));
    let with = system_plan(NodeType::Host, true, true);
    assert_eq!(with.len(), 19);
    assert_eq!(with[0], SystemStep::Register(SystemTopic::Audit));
    assert_eq!(with[2], SystemStep::Register(SystemTopic::Trace));
    assert!(!with.contains(&SystemStep::Register(SystemTopic::Metrics)));
    assert_eq!(SystemTopic::TopicSync.name(), SYSTEM_TOPIC_TOPIC_SYNC);
}

#[test]
fn topic_discovery_and_sync_handlers() {
    let mut host = TopicTable::new();
    host.register_topic(&"a".to_string());
    let reply = TopicDiscovery {}.apply(&mut host, &TopicDiscoveryMessage { has_topics: vec!["b".to_string(), "a".to_string()] });
    assert_eq!(reply.topics, vec!["a".to_string(), "b".to_string()]);

    let mut worker = TopicTable::new();
    TopicSync {}.apply(NodeType::Worker, &mut worker, &TopicSyncMessage { topics: reply.topics });
    assert_eq!(worker.list_topics(), vec!["a".to_string(), "b".to_string()]);

    let mut other_host = TopicTable::new();
    TopicSync {}.apply(NodeType::Host, &mut other_host, &TopicSyncMessage { topics: vec!["z".to_string()] });
    assert!(other_host.list_topics().is_empty());
}

#[test]
fn pipeline_runs_middlewares_in_order() {
    let p: Pipeline<&str, &str> = Pipeline::new("handler").with("first").with("second");
    let mut seen = Vec::new();
    let mut next = p.start();
    loop {
        match next.step() {
            Step::Middleware(m, rest) => {
                seen.push(*m);
                next = rest;
            }
            Step::Handler(h) => {
                seen.push(*h);
                break;
            }
        }
    }
    assert_eq!(seen, vec!["first", "second", "handler"]);
}

#[test]
fn wal_client_updates() {
    let c = WalClient::new("w".to_string());
    let m = c.mark_dead_letter(&"id".to_string(), &"t".to_string(), 4, "bad".to_string());
    assert_eq!(m.worker_id, "w");
    assert_eq!(m.status, WalRecordState::Failed);
    assert_eq!(m.attempts, 4);
    assert_eq!(m.error, Some("bad".to_string()));
    assert_eq!(c.mark_pending(&"id".to_string(), &"t".to_string()).status, WalRecordState::Pending);
    assert_eq!(c.mark_processing(&"id".to_string(), &"t".to_string()).status, WalRecordState::Processing);
    let done = c.mark_complete(&"id".to_string(), &"t".to_string(), 2);
    assert_eq!((done.status, done.attempts), (WalRecordState::Complete, 2));
    let s = c.sync_status_at(&"id".to_string(), &"t".to_string(), WalRecordState::Pending, 1, None, 5, 6);
    assert_eq!((s.last_attempt_at, s.timestamp), (5, 6));
}

#[test]
fn wal_record_from_msg_is_pending() {
    let m = EMessage::new(MessageTopic("t".to_string()), MessagePayload(vec![]), DeliveryMode::Standard, None);
    let id = m.id.clone();
    let r = WalRecord::from_msg(m);
    assert_eq!(r.message.id, id);
    assert_eq!(r.status, WalRecordState::Pending);
    assert_eq!(r.record_id, 0);
    assert!(r.dead_reason.is_none());
}
