//! Topic bookkeeping and the routing decisions of sending a message:
//! scheduling delayed messages, fanning broadcasts out to the registered
//! workers, and recovering pending messages on replay.

use vstd::prelude::*;
use crate::NodeType;
use crate::strmap::string_views;
use crate::error::CoreError;
use crate::message::{DeliveryMode, EMessage, MessageTopic};
use crate::time::{Nanos, Timestamp};
use crate::wal::WalRecord;
use crate::worker_registry::WorkerInfo;

verus! {

/// `s` with `t` appended unless already present.
pub open spec fn add_topic(s: Seq<Seq<char>>, t: Seq<char>) -> Seq<Seq<char>> {
    if s.contains(t) { s } else { s.push(t) }
}

/// `s` with each topic of `incoming` added in turn.
pub open spec fn add_topics(s: Seq<Seq<char>>, incoming: Seq<Seq<char>>) -> Seq<Seq<char>>
    decreases incoming.len(),
{
    if incoming.len() == 0 {
        s
    } else {
        add_topic(add_topics(s, incoming.drop_last()), incoming.last())
    }
}

/// The names a topic list registers, in order.
pub struct TopicTable {
    topics: Vec<String>,
}

impl TopicTable {
    /// Registered topics, in registration order.
    pub closed spec fn view(&self) -> Seq<Seq<char>> {
        string_views(self.topics@)
    }

    /// No topic is registered twice.
    pub open spec fn wf(&self) -> bool {
        self.view().no_duplicates()
    }

    /// No topics yet.
    pub fn new() -> (t: TopicTable)
        ensures
            t.wf(),
            t.view() == Seq::<Seq<char>>::empty(),
    {
        let t = TopicTable { topics: Vec::new() };
        assert(t.view() =~= Seq::<Seq<char>>::empty());
        t
    }

    /// Whether `topic` is registered.
    pub fn contains(&self, topic: &String) -> (b: bool)
        ensures
            b == self.view().contains(topic@),
    {
        let mut i: usize = 0;
        while i < self.topics.len()
            invariant
                i <= self.topics@.len(),
                forall|j: int| 0 <= j < i ==> self.view()[j] != topic@,
            decreases self.topics@.len() - i,
        {
            if self.topics[i] == *topic {
                assert(self.view()[i as int] == topic@);
                return true;
            }
            i = i + 1;
        }
        false
    }

    /// Registers `topic` unless it already is.
    pub fn register_topic(&mut self, topic: &String)
        requires
            old(self).wf(),
        ensures
            final(self).wf(),
            final(self).view() == add_topic(old(self).view(), topic@),
    {
        if !self.contains(topic) {
            self.topics.push(topic.clone());
            assert(self.view() =~= old(self).view().push(topic@));
            proof { lemma_add_topic_no_dup(old(self).view(), topic@); }
        }
    }

    /// Registers each topic of `incoming` in turn, as topic discovery and
    /// topic synchronization merge a received list.
    pub fn register_all(&mut self, incoming: &Vec<String>)
        requires
            old(self).wf(),
        ensures
            final(self).wf(),
            final(self).view() == add_topics(old(self).view(), string_views(incoming@)),
    {
        let ghost inc = string_views(incoming@);
        let mut i: usize = 0;
        while i < incoming.len()
            invariant
                self.wf(),
                i <= incoming@.len(),
                inc == string_views(incoming@),
                self.view() == add_topics(old(self).view(), inc.take(i as int)),
            decreases incoming@.len() - i,
        {
            self.register_topic(&incoming[i]);
            assert(inc.take(i + 1).drop_last() =~= inc.take(i as int));
            i = i + 1;
        }
        assert(inc.take(incoming@.len() as int) =~= inc);
    }

    /// Copies of the registered topics, in registration order.
    pub fn list_topics(&self) -> (v: Vec<String>)
        ensures
            string_views(v@) == self.view(),
    {
        let mut out: Vec<String> = Vec::new();
        let mut i: usize = 0;
        while i < self.topics.len()
            invariant
                i <= self.topics@.len(),
                out@.len() == i,
                forall|j: int| 0 <= j < i ==> (#[trigger] out@[j])@ == self.topics@[j]@,
            decreases self.topics@.len() - i,
        {
            out.push(self.topics[i].clone());
            i = i + 1;
        }
        assert(string_views(out@) =~= self.view());
        out
    }
}

proof fn lemma_add_topic_no_dup(s: Seq<Seq<char>>, t: Seq<char>)
    requires
        s.no_duplicates(),
    ensures
        add_topic(s, t).no_duplicates(),
{
    if !s.contains(t) {
        let r = s.push(t);
        assert forall|a: int, b: int| 0 <= a < r.len() && 0 <= b < r.len() && a != b implies r[a] != r[b] by {
            if a == s.len() {
                assert(s.contains(r[b]));
            } else if b == s.len() {
                assert(s.contains(r[a]));
            }
        }
    }
}

/// Merging keeps every earlier topic in place, adds exactly the new
/// ones, and never registers a topic twice.
pub proof fn lemma_add_topics(s: Seq<Seq<char>>, incoming: Seq<Seq<char>>)
    requires
        s.no_duplicates(),
    ensures
        add_topics(s, incoming).no_duplicates(),
        add_topics(s, incoming).len() >= s.len(),
        add_topics(s, incoming).take(s.len() as int) == s,
        forall|t: Seq<char>| add_topics(s, incoming).contains(t) <==> (s.contains(t) || incoming.contains(t)),
    decreases incoming.len(),
{
    if incoming.len() > 0 {
        let p = incoming.drop_last();
        let m = add_topics(s, p);
        lemma_add_topics(s, p);
        lemma_add_topic_no_dup(m, incoming.last());
        assert(add_topics(s, incoming).take(s.len() as int) =~= m.take(s.len() as int));
        assert forall|t: Seq<char>| add_topics(s, incoming).contains(t) <==> (s.contains(t) || incoming.contains(t)) by {
            if incoming.contains(t) && !p.contains(t) {
                let j = incoming.index_of(t);
                if j < p.len() {
                    assert(p[j] == t);
                }
                assert(t == incoming.last());
                if !m.contains(t) {
                    assert(m.push(t)[m.len() as int] == t);
                }
            }
            if p.contains(t) {
                let j = p.index_of(t);
                assert(incoming[j] == t);
            }
            if add_topics(s, incoming).contains(t) && !m.contains(t) {
                let j = add_topics(s, incoming).index_of(t);
                if j < m.len() {
                    assert(m[j] == t);
                }
                assert(incoming[incoming.len() - 1] == t);
            }
            if m.contains(t) {
                let j = m.index_of(t);
                assert(add_topics(s, incoming)[j] == t);
            }
        }
    } else {
        assert(s.take(s.len() as int) =~= s);
    }
}

/// Merging the same list twice changes nothing the second time.
pub proof fn lemma_add_topics_idempotent(s: Seq<Seq<char>>, incoming: Seq<Seq<char>>)
    requires
        s.no_duplicates(),
    ensures
        add_topics(add_topics(s, incoming), incoming) == add_topics(s, incoming),
    decreases incoming.len(),
{
    let m = add_topics(s, incoming);
    lemma_add_topics(s, incoming);
    lemma_add_topics_contained(m, incoming);
}

/// Adding topics that are all present already changes nothing.
proof fn lemma_add_topics_contained(m: Seq<Seq<char>>, incoming: Seq<Seq<char>>)
    requires
        forall|t: Seq<char>| incoming.contains(t) ==> m.contains(t),
    ensures
        add_topics(m, incoming) == m,
    decreases incoming.len(),
{
    if incoming.len() > 0 {
        let p = incoming.drop_last();
        assert forall|t: Seq<char>| p.contains(t) implies m.contains(t) by {
            let j = p.index_of(t);
            assert(incoming[j] == t);
        }
        lemma_add_topics_contained(m, p);
        assert(incoming.contains(incoming.last()));
    }
}

/// How a message is handed to the producer.
#[derive(Debug, Clone, Copy, PartialEq, Eq, Structural)]
pub enum SendMode {
    /// Wait until the queue accepts it.
    Send,
    /// Fail at once if the queue cannot take it.
    TrySend,
    /// Wait at most the given span (nanoseconds).
    Timeout(Nanos),
}

/// The mode chosen by the `try_send` and `timeout` options: a requested
/// try-send wins, then a timeout, else a plain send.
pub open spec fn spec_send_mode(try_send: Option<bool>, timeout: Option<Nanos>) -> SendMode {
    if try_send == Some(true) {
        SendMode::TrySend
    } else {
        match timeout {
            Some(t) => SendMode::Timeout(t),
            None => SendMode::Send,
        }
    }
}

/// The mode chosen by the `try_send` and `timeout` options.
pub fn send_mode(try_send: Option<bool>, timeout: Option<Nanos>) -> (m: SendMode)
    ensures
        m == spec_send_mode(try_send, timeout),
{
    let t = match try_send {
        Some(b) => b,
        None => false,
    };
    if t {
        SendMode::TrySend
    } else {
        match timeout {
            Some(to) => SendMode::Timeout(to),
            None => SendMode::Send,
        }
    }
}

/// What sending a message amounts to.
#[derive(Debug)]
pub enum SendPlan {
    /// Store the record in the log's schedule until its delivery time.
    Schedule(WalRecord),
    /// Hand each message to the producer in turn with the mode, stopping at
    /// the first failure.
    Deliver(Vec<EMessage>, SendMode),
}

/// Whether `c` is the copy of broadcast `msg` for the worker named `worker`:
/// id suffixed with `-` and the worker's name, addressed to that worker,
/// everything else unchanged.
pub open spec fn is_broadcast_copy(c: EMessage, msg: EMessage, worker: Seq<char>) -> bool {
    &&& c.id@ == msg.id@ + "-"@ + worker
    &&& c.to_worker matches Some(w) && w@ == worker
    &&& c.topic == msg.topic
    &&& c.payload@ == msg.payload@
    &&& c.metadata == msg.metadata
    &&& c.attempts == msg.attempts
    &&& c.delivery_mode == msg.delivery_mode
    &&& c.consumed_count == msg.consumed_count
    &&& c.deliver_at == msg.deliver_at
    &&& c.version == msg.version
}

/// Whether `e` is `Unsupported` with the given text.
pub open spec fn is_unsupported(e: CoreError, text: Seq<char>) -> bool {
    e matches CoreError::Unsupported(s) && s@ == text
}

/// The copy of broadcast `msg` for `worker`.
pub fn broadcast_copy(msg: &EMessage, worker: &String) -> (c: EMessage)
    ensures
        is_broadcast_copy(c, *msg, worker@),
{
    let mut c = msg.duplicate();
    c.id = msg.id.clone().concat("-").concat(worker.as_str());
    c.to_worker = Some(worker.clone());
    c
}

/// Decides how `msg` is sent to `topic`.
///
/// A message with a delivery time goes to the log's schedule (which
/// needs a log). A broadcast is refused on a worker node; on a host it
/// becomes one copy per worker registered for `topic`, in the order the
/// registry lists them. Anything else is delivered once, with its topic
/// set to `topic`. The mode comes from `try_send` and `timeout`.
pub fn plan_send(
    topic: &String,
    msg: EMessage,
    node_type: NodeType,
    wal_available: bool,
    registry: &crate::worker_registry::WorkerRegistry,
    try_send: Option<bool>,
    timeout: Option<Nanos>,
) -> (r: Result<SendPlan, CoreError>)
    requires
        registry.wf(),
    ensures
        msg.deliver_at is Some && wal_available ==> (r matches Ok(SendPlan::Schedule(rec))
            && rec.message == msg && rec.record_id == 0 && rec.status == crate::wal::WalRecordState::Pending
            && rec.last_attempt_at is None && !rec.is_dead_letter && rec.dead_reason is None),
        msg.deliver_at is Some && !wal_available ==> (r matches Err(e) && is_unsupported(e, "WAL not available"@)),
        msg.deliver_at is None && msg.delivery_mode == DeliveryMode::Broadcast && node_type == NodeType::Worker
            ==> (r matches Err(e) && is_unsupported(e, "Unsupported node type, send broadcast message must host"@)),
        msg.deliver_at is None && msg.delivery_mode == DeliveryMode::Broadcast && node_type == NodeType::Host
            ==> (r matches Ok(SendPlan::Deliver(v, mode)) && mode == spec_send_mode(try_send, timeout) && ({
                let ws = crate::worker_registry::records_of(registry.view(),
                    registry.names().filter(|k: Seq<char>| registry.view()[k].topic@ == topic@));
                &&& v@.len() == ws.len()
                &&& forall|i: int| 0 <= i < ws.len() ==> is_broadcast_copy(#[trigger] v@[i], msg, ws[i].worker_name@)
            })),
        msg.deliver_at is None && msg.delivery_mode != DeliveryMode::Broadcast
            ==> (r matches Ok(SendPlan::Deliver(v, mode)) && mode == spec_send_mode(try_send, timeout)
                && v@.len() == 1 && v@[0] == (EMessage { topic: MessageTopic(*topic), ..msg })),
{
    if msg.deliver_at.is_some() {
        if !wal_available {
            return Err(CoreError::Unsupported(String::from_str("WAL not available")));
        }
        return Ok(SendPlan::Schedule(WalRecord::from_msg(msg)));
    }
    let mode = send_mode(try_send, timeout);
    if msg.delivery_mode == DeliveryMode::Broadcast {
        if node_type == NodeType::Worker {
            return Err(CoreError::Unsupported(String::from_str(
                "Unsupported node type, send broadcast message must host")));
        }
        let workers = registry.get_workers(topic);
        let mut copies: Vec<EMessage> = Vec::new();
        let mut i: usize = 0;
        while i < workers.len()
            invariant
                i <= workers@.len(),
                copies@.len() == i,
                forall|j: int| 0 <= j < i ==> is_broadcast_copy(#[trigger] copies@[j], msg, workers@[j].worker_name@),
            decreases workers@.len() - i,
        {
            copies.push(broadcast_copy(&msg, &workers[i].worker_name));
            i = i + 1;
        }
        return Ok(SendPlan::Deliver(copies, mode));
    }
    let mut msg = msg;
    msg.topic = MessageTopic(topic.clone());
    Ok(SendPlan::Deliver(vec![msg], mode))
}

/// What replay does with one pending record.
#[derive(Debug)]
pub enum ReplayStep {
    /// Its topic is not among those replayed.
    Skip,
    /// Its delivery time is still ahead: put it back in the schedule.
    Schedule(WalRecord),
    /// Send the message (delivery time cleared) to the topic.
    Send(String, EMessage),
}

/// Whether `topic` passes the replay filter (no filter passes everything).
pub open spec fn passes_filter(filter: Option<Seq<Seq<char>>>, topic: Seq<char>) -> bool {
    match filter {
        Some(allowed) => allowed.contains(topic),
        None => true,
    }
}

fn list_contains(list: &Vec<String>, s: &String) -> (b: bool)
    ensures
        b == string_views(list@).contains(s@),
{
    let mut i: usize = 0;
    while i < list.len()
        invariant
            i <= list@.len(),
            forall|j: int| 0 <= j < i ==> list@[j]@ != s@,
        decreases list@.len() - i,
    {
        if list[i] == *s {
            assert(string_views(list@)[i as int] == s@);
            return true;
        }
        i = i + 1;
    }
    assert forall|j: int| 0 <= j < list@.len() implies string_views(list@)[j] != s@ by {
        assert(list@[j]@ != s@);
    }
    false
}

/// Decides what replay does with `record` at instant `now`: records of
/// filtered-out topics are skipped; a message due after `now` is
/// rescheduled as a fresh pending record; any other is sent to its own
/// topic with its delivery time cleared.
pub fn replay_step(filter: &Option<Vec<String>>, record: WalRecord, now: Timestamp) -> (r: ReplayStep)
    ensures
        !passes_filter(match filter { Some(v) => Some(string_views(v@)), None => None }, record.message.topic.0@)
            ==> r is Skip,
        passes_filter(match filter { Some(v) => Some(string_views(v@)), None => None }, record.message.topic.0@)
            ==> match record.message.deliver_at {
                Some(t) if t > now => (r matches ReplayStep::Schedule(rec) && rec.message == record.message
                    && rec.record_id == 0 && rec.status == crate::wal::WalRecordState::Pending
                    && rec.last_attempt_at is None && !rec.is_dead_letter && rec.dead_reason is None),
                _ => (r matches ReplayStep::Send(t, m) && t@ == record.message.topic.0@
                    && m == (EMessage { deliver_at: None, ..record.message })),
            },
{
    let msg = record.message;
    match filter {
        Some(allowed) => {
            if !list_contains(allowed, &msg.topic.0) {
                return ReplayStep::Skip;
            }
        },
        None => {},
    }
    match msg.deliver_at {
        Some(t) => {
            if t > now {
                return ReplayStep::Schedule(WalRecord::from_msg(msg));
            }
        },
        None => {},
    }
    let mut msg = msg;
    msg.deliver_at = None;
    let t = msg.topic.0.clone();
    ReplayStep::Send(t, msg)
}

/// The message of a scheduled record that has come due, with its
/// delivery time cleared, and the topic to send it to.
pub fn release_due(record: WalRecord) -> (r: (String, EMessage))
    ensures
        r.0@ == record.message.topic.0@,
        r.1 == (EMessage { deliver_at: None, ..record.message }),
{
    let mut msg = record.message;
    msg.deliver_at = None;
    let t = msg.topic.0.clone();
    (t, msg)
}

/// Copies of one broadcast for different workers have different ids.
pub proof fn lemma_broadcast_ids_distinct(id: Seq<char>, w1: Seq<char>, w2: Seq<char>)
    requires
        w1 != w2,
    ensures
        id + "-"@ + w1 != id + "-"@ + w2,
{
    let p = id + "-"@;
    if p + w1 == p + w2 {
        assert(w1 =~= (p + w1).subrange(p.len() as int, (p + w1).len() as int));
        assert(w2 =~= (p + w2).subrange(p.len() as int, (p + w2).len() as int));
    }
}

/// Replay's topic filter matches names exactly: with a list given, a
/// record passes exactly when its topic equals one of the listed topics,
/// so a topic whose name merely starts or ends like a listed one is
/// skipped; with no list every record passes.
pub proof fn lemma_replay_filter_exact(allowed: Seq<Seq<char>>, topic: Seq<char>)
    ensures
        passes_filter(Some(allowed), topic) <==> exists|j: int| 0 <= j < allowed.len() && #[trigger] allowed[j] == topic,
        (forall|j: int| 0 <= j < allowed.len() ==> (#[trigger] allowed[j]).len() != topic.len())
            ==> !passes_filter(Some(allowed), topic),
        passes_filter(None, topic),
{
    if passes_filter(Some(allowed), topic) {
        let j = allowed.index_of(topic);
        assert(allowed[j] == topic);
    }
}

/// How a message is handed to the producer: a requested try-send never
/// waits, whatever the timeout; otherwise a given timeout bounds the wait
/// by exactly that span; with neither the send waits until the queue
/// accepts.
pub proof fn lemma_send_mode_choice(try_send: Option<bool>, timeout: Option<Nanos>)
    ensures
        try_send == Some(true) ==> spec_send_mode(try_send, timeout) == SendMode::TrySend,
        try_send != Some(true) && timeout is Some ==> spec_send_mode(try_send, timeout) == SendMode::Timeout(timeout->0),
        try_send != Some(true) && timeout is None ==> spec_send_mode(try_send, timeout) == SendMode::Send,
{
}

} // verus!
