use event_base::message::{DeliveryMode, EMessage, MessagePayload, MessageTopic};

#[test]
fn message_creation() {
    let new_topic = MessageTopic("topic".to_owned());
    let new_payload = MessagePayload("text".as_bytes().to_vec());
    let msg = EMessage::new(new_topic.duplicate(), new_payload, DeliveryMode::Standard, None);
    assert_eq!(msg.topic.0, new_topic.0);
    assert_eq!(msg.attempts, 0);
}

#[test]
fn message_new_has_fresh_defaults() {
    let msg = EMessage::new(
        MessageTopic("orders".to_string()),
        MessagePayload(vec![1, 2, 3]),
        DeliveryMode::Repeated(3),
        Some("w1".to_string()),
    );
    assert_eq!(msg.id.chars().count(), 36);
    assert_eq!(msg.payload.0, vec![1, 2, 3]);
    assert_eq!(msg.delivery_mode, DeliveryMode::Repeated(3));
    assert_eq!(msg.to_worker, Some("w1".to_string()));
    assert_eq!(msg.consumed_count, 0);
    assert!(msg.deliver_at.is_none());
    assert_eq!(msg.version, 0);
    assert!(msg.metadata.trace_id.is_none());
}

#[test]
fn message_ids_differ() {
    let a = EMessage::new(MessageTopic("t".to_string()), MessagePayload(vec![]), DeliveryMode::Standard, None);
    let b = EMessage::new(MessageTopic("t".to_string()), MessagePayload(vec![]), DeliveryMode::Standard, None);
    assert_ne!(a.id, b.id);
}

#[test]
fn message_default_is_empty() {
    let m = EMessage::default();
    assert_eq!(m.id, "");
    assert_eq!(m.topic.0, "");
    assert!(m.payload.0.is_empty());
    assert_eq!(m.delivery_mode, DeliveryMode::Standard);
}

#[test]
fn message_new_with_keeps_id_and_time() {
    let m = EMessage::new_with("abc".to_string(), 42, MessageTopic("t".to_string()),
        MessagePayload(vec![9]), DeliveryMode::Broadcast, None);
    assert_eq!(m.id, "abc");
    assert_eq!(m.metadata.created_at, 42);
    assert_eq!(m.delivery_mode, DeliveryMode::Broadcast);
}

#[test]
fn message_topic_from_text() {
    assert_eq!(MessageTopic::from("orders").0, "orders");
    assert_eq!(MessageTopic::from("pay".to_string()).0, "pay");
}

#[test]
fn message_id_is_hyphenated_uuid() {
    let m = EMessage::new(MessageTopic("t".to_string()), MessagePayload(vec![]), DeliveryMode::Standard, None);
    let cs: Vec<char> = m.id.chars().collect();
    assert_eq!(cs.len(), 36);
    for (i, c) in cs.iter().enumerate() {
        if i == 8 || i == 13 || i == 18 || i == 23 {
            assert_eq!(*c, '-');
        } else {
            assert!(c.is_ascii_digit() || ('a'..='f').contains(c));
        }
    }
}
