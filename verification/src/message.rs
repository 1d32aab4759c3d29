//! The message envelope: routing, payload, delivery mode and metadata.

use vstd::prelude::*;
use crate::time::{Timestamp, MAX_DURATION_NANOS};

verus! {

/// A topic identifier.
#[derive(Debug)]
pub struct MessageTopic(pub String);

/// An opaque payload.
#[derive(Debug)]
pub struct MessagePayload(pub Vec<u8>);

/// How a message is delivered.
#[derive(Debug, Clone, Copy, PartialEq, Eq, Structural)]
pub enum DeliveryMode {
    /// Delivered once.
    Standard,
    /// Delivered exactly the given number of times.
    Repeated(u32),
    /// A copy is delivered to every worker registered for the topic.
    Broadcast,
}

/// Metadata carried with a message.
#[derive(Debug)]
pub struct MessageMetadata {
    /// Instant the message was created.
    pub created_at: Timestamp,
    /// Distributed tracing id.
    pub trace_id: Option<String>,
    /// Id linking related messages.
    pub correlation_id: Option<String>,
    /// Id of the message that caused this one.
    pub causation_id: Option<String>,
    /// Component that produced the message.
    pub source: Option<String>,
}

/// The message envelope.
#[derive(Debug)]
pub struct EMessage {
    /// Unique message id.
    pub id: String,
    /// Topic the message belongs to.
    pub topic: MessageTopic,
    /// The payload bytes.
    pub payload: MessagePayload,
    /// Creation time and tracing ids.
    pub metadata: MessageMetadata,
    /// Processing attempts so far.
    pub attempts: u32,
    /// Delivery mode.
    pub delivery_mode: DeliveryMode,
    /// Times the message has been consumed (repeated delivery).
    pub consumed_count: u32,
    /// Instant before which the message must not be delivered.
    pub deliver_at: Option<Timestamp>,
    /// A specific worker to route to.
    pub to_worker: Option<String>,
    /// Schema version.
    pub version: u32,
}

impl View for MessagePayload {
    type V = Seq<u8>;

    open spec fn view(&self) -> Seq<u8> {
        self.0@
    }
}

/// A copy of an optional string.
pub fn clone_opt_string(o: &Option<String>) -> (r: Option<String>)
    ensures
        r == *o,
{
    match o {
        Some(s) => Some(s.clone()),
        None => None,
    }
}

impl MessageTopic {
    /// A copy of the topic.
    pub fn duplicate(&self) -> (r: MessageTopic)
        ensures
            r == *self,
    {
        MessageTopic(self.0.clone())
    }
}

impl From<String> for MessageTopic {
    /// The topic named `s`.
    fn from(s: String) -> (t: MessageTopic) {
        MessageTopic(s)
    }
}

impl vstd::std_specs::convert::FromSpecImpl<String> for MessageTopic {
    open spec fn obeys_from_spec() -> bool {
        true
    }

    open spec fn from_spec(v: String) -> MessageTopic {
        MessageTopic(v)
    }
}

impl From<&str> for MessageTopic {
    /// The topic named `s`.
    fn from(s: &str) -> (t: MessageTopic)
        ensures
            t.0@ == s@,
    {
        MessageTopic(String::from_str(s))
    }
}

impl vstd::std_specs::convert::FromSpecImpl<&str> for MessageTopic {
    /// A `String` is not determined by its characters here, so the topic
    /// is described by the clause on `from` instead.
    open spec fn obeys_from_spec() -> bool {
        false
    }

    open spec fn from_spec(v: &str) -> MessageTopic {
        MessageTopic(choose|t: String| t@ == v@)
    }
}

impl MessagePayload {
    /// A copy of the payload bytes.
    pub fn duplicate(&self) -> (r: MessagePayload)
        ensures
            r@ == self@,
    {
        let v = self.0.clone();
        assert(v@ =~= self.0@);
        MessagePayload(v)
    }
}

impl MessageMetadata {
    /// Metadata created at `created_at` with no tracing ids.
    pub open spec fn fresh(created_at: Timestamp) -> MessageMetadata {
        MessageMetadata {
            created_at,
            trace_id: None,
            correlation_id: None,
            causation_id: None,
            source: None,
        }
    }

    /// A copy of the metadata.
    pub fn duplicate(&self) -> (r: MessageMetadata)
        ensures
            r == *self,
    {
        MessageMetadata {
            created_at: self.created_at,
            trace_id: clone_opt_string(&self.trace_id),
            correlation_id: clone_opt_string(&self.correlation_id),
            causation_id: clone_opt_string(&self.causation_id),
            source: clone_opt_string(&self.source),
        }
    }
}

/// Whether `s` is the hyphenated lower-case text form of a UUID: 36
/// characters, hyphens at positions 8, 13, 18 and 23, and lower-case hex
/// digits everywhere else.
pub open spec fn is_hyphenated_uuid(s: Seq<char>) -> bool {
    &&& s.len() == 36
    &&& forall|i: int| 0 <= i < 36 ==> if i == 8 || i == 13 || i == 18 || i == 23 {
        #[trigger] s[i] == '-'
    } else {
        ('0' <= s[i] <= '9') || ('a' <= s[i] <= 'f')
    }
}

/// A fresh message id, the hyphenated text form of a random (version 4) UUID.
///
/// Calls `uuid::Uuid::new_v4` and formats it with `to_string`, which
/// writes the hyphenated lower-case form: 32 hex digits in groups of 8, 4,
/// 4, 4 and 12 separated by hyphens. Which id comes out is not stated: it
/// is random.
#[verifier::external_body]
fn fresh_uuid_string() -> (s: String)
    ensures
        is_hyphenated_uuid(s@),
{
    uuid::Uuid::new_v4().to_string()
}

/// A fresh random id for a message or worker: the text of a random UUID.
pub fn fresh_id() -> (s: String)
    ensures
        is_hyphenated_uuid(s@),
{
    fresh_uuid_string()
}

impl EMessage {
    /// Whether `self` has the given routing fields and the defaults of a
    /// freshly created message.
    pub open spec fn is_fresh(
        self,
        id: Seq<char>,
        created_at: int,
        topic: MessageTopic,
        payload: Seq<u8>,
        delivery_mode: DeliveryMode,
        to_worker: Option<String>,
    ) -> bool {
        &&& self.id@ == id
        &&& self.topic == topic
        &&& self.payload@ == payload
        &&& self.metadata == MessageMetadata::fresh(created_at as i128)
        &&& self.attempts == 0
        &&& self.delivery_mode == delivery_mode
        &&& self.consumed_count == 0
        &&& self.deliver_at is None
        &&& self.to_worker == to_worker
        &&& self.version == 0
    }

    /// Builds a message with the given id and creation instant.
    pub fn new_with(
        id: String,
        created_at: Timestamp,
        topic: MessageTopic,
        payload: MessagePayload,
        delivery_mode: DeliveryMode,
        to_worker: Option<String>,
    ) -> (m: EMessage)
        ensures
            m.is_fresh(id@, created_at as int, topic, payload@, delivery_mode, to_worker),
            m.payload == payload,
    {
        EMessage {
            id,
            topic,
            payload,
            metadata: MessageMetadata {
                created_at,
                trace_id: None,
                correlation_id: None,
                causation_id: None,
                source: None,
            },
            attempts: 0,
            delivery_mode,
            consumed_count: 0,
            deliver_at: None,
            to_worker,
            version: 0,
        }
    }

    /// A new message with a random id, created now.
    pub fn new(
        topic: MessageTopic,
        payload: MessagePayload,
        delivery_mode: DeliveryMode,
        to_worker: Option<String>,
    ) -> (m: EMessage)
        ensures
            is_hyphenated_uuid(m.id@),
            -MAX_DURATION_NANOS <= m.metadata.created_at <= MAX_DURATION_NANOS,
            m.is_fresh(m.id@, m.metadata.created_at as int, topic, payload@, delivery_mode, to_worker),
    {
        let id = fresh_id();
        let created_at = crate::time::now();
        EMessage::new_with(id, created_at, topic, payload, delivery_mode, to_worker)
    }

    /// Field-by-field agreement, payloads compared by their bytes.
    pub open spec fn agrees(self, other: EMessage) -> bool {
        &&& self.id == other.id
        &&& self.topic == other.topic
        &&& self.payload@ == other.payload@
        &&& self.metadata == other.metadata
        &&& self.attempts == other.attempts
        &&& self.delivery_mode == other.delivery_mode
        &&& self.consumed_count == other.consumed_count
        &&& self.deliver_at == other.deliver_at
        &&& self.to_worker == other.to_worker
        &&& self.version == other.version
    }

    /// A copy of the message.
    pub fn duplicate(&self) -> (r: EMessage)
        ensures
            r.agrees(*self),
    {
        EMessage {
            id: self.id.clone(),
            topic: self.topic.duplicate(),
            payload: self.payload.duplicate(),
            metadata: self.metadata.duplicate(),
            attempts: self.attempts,
            delivery_mode: self.delivery_mode,
            consumed_count: self.consumed_count,
            deliver_at: self.deliver_at,
            to_worker: clone_opt_string(&self.to_worker),
            version: self.version,
        }
    }
}

impl Default for EMessage {
    /// The default message: empty id, topic and payload, standard
    /// delivery, created now.
    fn default() -> (m: EMessage)
        ensures
            -MAX_DURATION_NANOS <= m.metadata.created_at <= MAX_DURATION_NANOS,
            m.id@ == Seq::<char>::empty(),
            m.topic.0@ == Seq::<char>::empty(),
            m.payload@ == Seq::<u8>::empty(),
            m.metadata == MessageMetadata::fresh(m.metadata.created_at),
            m.attempts == 0,
            m.delivery_mode == DeliveryMode::Standard,
            m.consumed_count == 0,
            m.deliver_at is None,
            m.to_worker is None,
            m.version == 0,
    {
        let created_at = crate::time::now();
        let m = EMessage::new_with(String::new(), created_at, MessageTopic(String::new()),
            MessagePayload(Vec::new()), DeliveryMode::Standard, None);
        assert(m.payload@ =~= Seq::<u8>::empty());
        m
    }
}

} // verus!
