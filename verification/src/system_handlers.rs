//! What the built-in system handlers do with the messages of the control
//! topics, once the payload is decoded.

use vstd::prelude::*;
use crate::NodeType;
use crate::constant::{SYSTEM_TOPIC_AUDIT, SYSTEM_TOPIC_METRICS, SYSTEM_TOPIC_SHUTDOWN, SYSTEM_TOPIC_SHUTDOWN_ACK, SYSTEM_TOPIC_TOPIC_DISCOVERY,
    SYSTEM_TOPIC_TOPIC_SYNC, SYSTEM_TOPIC_TRACE, SYSTEM_TOPIC_WAL_SYNC, SYSTEM_TOPIC_WORKER_DISCOVERY, SYSTEM_TOPIC_WORKER_HEARTBEAT,
    SYSTEM_WORKER_COUNT};
use crate::audit::{AuditBuffer, AuditRecord, record_step};
use crate::error::CoreError;
use crate::shutdown::ShutdownAck;
use crate::strmap::{StrMap, string_views};
use crate::time::Timestamp;
use crate::topic::{TopicTable, add_topics};
use crate::worker_registry::{WorkerDiscoveryMessage, WorkerHeartbeatMessage, WorkerInfo, WorkerRegistry, clock_value};

verus! {

/// A worker's request for the host's topics, with the topics it knows.
#[derive(Debug)]
pub struct TopicDiscoveryMessage {
    /// The topics the sender knows.
    pub has_topics: Vec<String>,
}

/// The full topic list, sent to workers.
#[derive(Debug)]
pub struct TopicSyncMessage {
    /// The topics.
    pub topics: Vec<String>,
}

/// Keeps audit records.
pub struct AuditHandler {}

/// Registers announced workers.
pub struct WorkerDiscoveryHandler {}

/// Records worker heartbeats.
pub struct WorkerHeartbeatHandler {}

/// Unregisters workers that report they shut down.
pub struct ShutdownAckHandler;

/// Keeps the latest metrics sample of each node.
pub struct MetricsHandler {}

/// Merges a worker's topics and answers with the full list.
pub struct TopicDiscovery {}

/// Merges the host's topic list on a worker node.
pub struct TopicSync {}

impl AuditHandler {
    /// Keeps `record` as the newest audit record.
    pub fn apply(&self, buffer: &mut AuditBuffer, record: AuditRecord)
        requires
            old(buffer).wf(),
        ensures
            final(buffer).wf(),
            final(buffer).capacity() == old(buffer).capacity(),
            final(buffer).records() == record_step(old(buffer).records(), old(buffer).capacity(), record),
    {
        buffer.record(record);
    }
}

impl MetricsHandler {
    /// Keeps `sample` as the latest sample of the node `node_name`,
    /// replacing an earlier one.
    pub fn apply<V>(&self, store: &mut StrMap<V>, node_name: String, sample: V)
        requires
            old(store).wf(),
        ensures
            final(store).wf(),
            final(store).view() == old(store).view().insert(node_name@, sample),
    {
        store.insert(node_name, sample);
    }
}

impl WorkerDiscoveryHandler {
    /// The registry record of an announced worker, heard from at `now`.
    pub fn worker_info(&self, msg: WorkerDiscoveryMessage, now: Timestamp) -> (w: WorkerInfo)
        ensures
            w.worker_name == msg.worker_name,
            w.topic == msg.topic,
            w.last_heartbeat == now,
    {
        WorkerInfo { worker_name: msg.worker_name, topic: msg.topic, last_heartbeat: now }
    }

    /// Registers the announced worker, heard from now.
    pub fn apply(&self, registry: &mut WorkerRegistry, msg: WorkerDiscoveryMessage)
        requires
            old(registry).wf(),
        ensures
            final(registry).wf(),
            exists|now: Timestamp| clock_value(now as int) && final(registry).view() == old(registry).view().insert(
                msg.worker_name@, WorkerInfo { worker_name: msg.worker_name, topic: msg.topic, last_heartbeat: now }),
    {
        let name = msg.worker_name.clone();
        let topic = msg.topic.clone();
        let now = crate::time::now();
        let info = self.worker_info(msg, now);
        registry.register(info);
        assert(clock_value(now as int) && registry.view() == old(registry).view().insert(
            msg.worker_name@, WorkerInfo { worker_name: msg.worker_name, topic: msg.topic, last_heartbeat: now }));
    }
}

impl WorkerHeartbeatHandler {
    /// Records the heartbeat of the sending worker now; `WorkerNotFound`
    /// when it is not registered.
    pub fn apply(&self, registry: &mut WorkerRegistry, msg: &WorkerHeartbeatMessage) -> (r: Result<(), CoreError>)
        requires
            old(registry).wf(),
        ensures
            final(registry).wf(),
            old(registry).view().dom().contains(msg.worker_name@) ==> {
                &&& r is Ok
                &&& exists|now: Timestamp| clock_value(now as int) && final(registry).view() == old(registry).view().insert(
                    msg.worker_name@, WorkerInfo { last_heartbeat: now, ..old(registry).view()[msg.worker_name@] })
            },
            !old(registry).view().dom().contains(msg.worker_name@) ==> {
                &&& r == Err::<(), CoreError>(CoreError::WorkerNotFound(msg.worker_name))
                &&& final(registry).view() == old(registry).view()
            },
    {
        registry.heartbeat(&msg.worker_name)
    }
}

impl ShutdownAckHandler {
    /// Unregisters the worker that reported its shutdown.
    pub fn apply(&self, registry: &mut WorkerRegistry, ack: &ShutdownAck)
        requires
            old(registry).wf(),
        ensures
            final(registry).wf(),
            final(registry).view() == old(registry).view().remove(ack.worker_name@),
    {
        registry.unregister(&ack.worker_name);
    }
}

/// A worker that reports its shutdown is gone from the registry: the
/// report `ShutdownAck::completed` makes for `name` carries `name`, and
/// `ShutdownAckHandler::apply` removes the reported worker, so `name` is no
/// longer registered and every other worker keeps its record.
pub proof fn lemma_acknowledged_worker_gone(m: Map<Seq<char>, WorkerInfo>, name: Seq<char>)
    ensures
        !m.remove(name).dom().contains(name),
        forall|k: Seq<char>| k != name && #[trigger] m.dom().contains(k)
            ==> m.remove(name).dom().contains(k) && m.remove(name)[k] == m[k],
{
}

impl TopicDiscovery {
    /// Registers the sender's topics that are new here and returns the
    /// full list to send back.
    pub fn apply(&self, table: &mut TopicTable, msg: &TopicDiscoveryMessage) -> (reply: TopicSyncMessage)
        requires
            old(table).wf(),
        ensures
            final(table).wf(),
            final(table).view() == add_topics(old(table).view(), string_views(msg.has_topics@)),
            string_views(reply.topics@) == final(table).view(),
    {
        table.register_all(&msg.has_topics);
        TopicSyncMessage { topics: table.list_topics() }
    }
}

impl TopicSync {
    /// On a worker node, registers the host's topics that are new here; a
    /// host ignores the list.
    pub fn apply(&self, node_type: NodeType, table: &mut TopicTable, msg: &TopicSyncMessage)
        requires
            old(table).wf(),
        ensures
            final(table).wf(),
            node_type == NodeType::Host ==> final(table).view() == old(table).view(),
            node_type == NodeType::Worker ==> final(table).view() == add_topics(old(table).view(), string_views(msg.topics@)),
    {
        if node_type == NodeType::Host {
            return;
        }
        table.register_all(&msg.topics);
    }
}

/// The control topics that have built-in handlers.
#[derive(Debug, Clone, Copy, PartialEq, Eq, Structural)]
pub enum SystemTopic {
    /// Audit records.
    Audit,
    /// Trace records.
    Trace,
    /// Worker discovery.
    WorkerDiscovery,
    /// Worker heartbeats.
    WorkerHeartbeat,
    /// Log status updates.
    WalSync,
    /// Shutdown commands.
    Shutdown,
    /// Shutdown acknowledgments.
    ShutdownAck,
    /// Topic discovery.
    TopicDiscovery,
    /// Topic synchronization.
    TopicSync,
    /// Node metrics.
    Metrics,
}

impl SystemTopic {
    /// The topic's name.
    pub open spec fn spec_name(self) -> Seq<char> {
        match self {
            SystemTopic::Audit => SYSTEM_TOPIC_AUDIT@,
            SystemTopic::Trace => SYSTEM_TOPIC_TRACE@,
            SystemTopic::WorkerDiscovery => SYSTEM_TOPIC_WORKER_DISCOVERY@,
            SystemTopic::WorkerHeartbeat => SYSTEM_TOPIC_WORKER_HEARTBEAT@,
            SystemTopic::WalSync => SYSTEM_TOPIC_WAL_SYNC@,
            SystemTopic::Shutdown => SYSTEM_TOPIC_SHUTDOWN@,
            SystemTopic::ShutdownAck => SYSTEM_TOPIC_SHUTDOWN_ACK@,
            SystemTopic::TopicDiscovery => SYSTEM_TOPIC_TOPIC_DISCOVERY@,
            SystemTopic::TopicSync => SYSTEM_TOPIC_TOPIC_SYNC@,
            SystemTopic::Metrics => SYSTEM_TOPIC_METRICS@,
        }
    }

    /// The topic's name.
    pub fn name(&self) -> (s: &'static str)
        ensures
            s@ == self.spec_name(),
    {
        match self {
            SystemTopic::Audit => SYSTEM_TOPIC_AUDIT,
            SystemTopic::Trace => SYSTEM_TOPIC_TRACE,
            SystemTopic::WorkerDiscovery => SYSTEM_TOPIC_WORKER_DISCOVERY,
            SystemTopic::WorkerHeartbeat => SYSTEM_TOPIC_WORKER_HEARTBEAT,
            SystemTopic::WalSync => SYSTEM_TOPIC_WAL_SYNC,
            SystemTopic::Shutdown => SYSTEM_TOPIC_SHUTDOWN,
            SystemTopic::ShutdownAck => SYSTEM_TOPIC_SHUTDOWN_ACK,
            SystemTopic::TopicDiscovery => SYSTEM_TOPIC_TOPIC_DISCOVERY,
            SystemTopic::TopicSync => SYSTEM_TOPIC_TOPIC_SYNC,
            SystemTopic::Metrics => SYSTEM_TOPIC_METRICS,
        }
    }
}

/// One step of registering the system handlers.
#[derive(Debug, Clone, Copy, PartialEq, Eq, Structural)]
pub enum SystemStep {
    /// Register the topic's built-in handler with the consumer router.
    Register(SystemTopic),
    /// Create this many workers for the (registered) topic.
    SpawnWorkers(SystemTopic, usize),
    /// Start the node metrics collector.
    StartCollector,
}

/// The registration steps of a node: a worker node handles only shutdown
/// commands, topic synchronization and metrics; a host handles audit
/// records (when it has audit writers) and traces (when it has trace
/// collectors), worker discovery and heartbeats, log updates, shutdown
/// commands and acknowledgments and topic discovery and
/// synchronization, with a pool of workers for each but metrics, which
/// it does not handle.
pub open spec fn spec_system_plan(node_type: NodeType, has_audit_writers: bool, has_trace_collectors: bool) -> Seq<SystemStep> {
    match node_type {
        NodeType::Worker => seq![
            SystemStep::Register(SystemTopic::Shutdown),
            SystemStep::Register(SystemTopic::TopicSync),
            SystemStep::Register(SystemTopic::Metrics),
            SystemStep::StartCollector,
        ],
        NodeType::Host => {
            let n = SYSTEM_WORKER_COUNT;
            let audit = if has_audit_writers {
                seq![SystemStep::Register(SystemTopic::Audit), SystemStep::SpawnWorkers(SystemTopic::Audit, n)]
            } else {
                Seq::empty()
            };
            let trace = if has_trace_collectors {
                seq![SystemStep::Register(SystemTopic::Trace), SystemStep::SpawnWorkers(SystemTopic::Trace, n)]
            } else {
                Seq::empty()
            };
            audit + trace + seq![
                SystemStep::Register(SystemTopic::WorkerDiscovery),
                SystemStep::SpawnWorkers(SystemTopic::WorkerDiscovery, n),
                SystemStep::Register(SystemTopic::WorkerHeartbeat),
                SystemStep::SpawnWorkers(SystemTopic::WorkerHeartbeat, n),
                SystemStep::Register(SystemTopic::WalSync),
                SystemStep::SpawnWorkers(SystemTopic::WalSync, n),
                SystemStep::Register(SystemTopic::Shutdown),
                SystemStep::Register(SystemTopic::ShutdownAck),
                SystemStep::Register(SystemTopic::TopicDiscovery),
                SystemStep::Register(SystemTopic::TopicSync),
                SystemStep::StartCollector,
                SystemStep::SpawnWorkers(SystemTopic::Shutdown, n),
                SystemStep::SpawnWorkers(SystemTopic::ShutdownAck, n),
                SystemStep::SpawnWorkers(SystemTopic::TopicDiscovery, n),
                SystemStep::SpawnWorkers(SystemTopic::TopicSync, n),
            ]
        },
    }
}

/// The registration steps of a node (see `spec_system_plan`).
pub fn system_plan(node_type: NodeType, has_audit_writers: bool, has_trace_collectors: bool) -> (v: Vec<SystemStep>)
    ensures
        v@ == spec_system_plan(node_type, has_audit_writers, has_trace_collectors),
{
    let mut v: Vec<SystemStep> = Vec::new();
    if node_type == NodeType::Worker {
        v.push(SystemStep::Register(SystemTopic::Shutdown));
        v.push(SystemStep::Register(SystemTopic::TopicSync));
        v.push(SystemStep::Register(SystemTopic::Metrics));
        v.push(SystemStep::StartCollector);
        assert(v@ =~= spec_system_plan(node_type, has_audit_writers, has_trace_collectors));
        return v;
    }
    let n = SYSTEM_WORKER_COUNT;
    if has_audit_writers {
        v.push(SystemStep::Register(SystemTopic::Audit));
        v.push(SystemStep::SpawnWorkers(SystemTopic::Audit, n));
    }
    if has_trace_collectors {
        v.push(SystemStep::Register(SystemTopic::Trace));
        v.push(SystemStep::SpawnWorkers(SystemTopic::Trace, n));
    }
    v.push(SystemStep::Register(SystemTopic::WorkerDiscovery));
    v.push(SystemStep::SpawnWorkers(SystemTopic::WorkerDiscovery, n));
    v.push(SystemStep::Register(SystemTopic::WorkerHeartbeat));
    v.push(SystemStep::SpawnWorkers(SystemTopic::WorkerHeartbeat, n));
    v.push(SystemStep::Register(SystemTopic::WalSync));
    v.push(SystemStep::SpawnWorkers(SystemTopic::WalSync, n));
    v.push(SystemStep::Register(SystemTopic::Shutdown));
    v.push(SystemStep::Register(SystemTopic::ShutdownAck));
    v.push(SystemStep::Register(SystemTopic::TopicDiscovery));
    v.push(SystemStep::Register(SystemTopic::TopicSync));
    v.push(SystemStep::StartCollector);
    v.push(SystemStep::SpawnWorkers(SystemTopic::Shutdown, n));
    v.push(SystemStep::SpawnWorkers(SystemTopic::ShutdownAck, n));
    v.push(SystemStep::SpawnWorkers(SystemTopic::TopicDiscovery, n));
    v.push(SystemStep::SpawnWorkers(SystemTopic::TopicSync, n));
    assert(v@ =~= spec_system_plan(node_type, has_audit_writers, has_trace_collectors));
    v
}

/// Which handlers a node registers: a host registers the audit handler
/// (with a pool of 32 workers) exactly when it has audit writers and the
/// trace handler (with its pool) exactly when it has trace collectors,
/// always registers worker discovery, heartbeats, log updates, shutdown
/// commands and acknowledgments and topic discovery and synchronization,
/// and never the metrics handler; a worker node registers shutdown
/// commands, topic synchronization and metrics, and neither audit nor
/// trace.
pub proof fn lemma_system_plan_handlers(a: bool, t: bool)
    ensures
        spec_system_plan(NodeType::Host, a, t).contains(SystemStep::Register(SystemTopic::Audit)) <==> a,
        spec_system_plan(NodeType::Host, a, t).contains(SystemStep::SpawnWorkers(SystemTopic::Audit, 32)) <==> a,
        spec_system_plan(NodeType::Host, a, t).contains(SystemStep::Register(SystemTopic::Trace)) <==> t,
        spec_system_plan(NodeType::Host, a, t).contains(SystemStep::SpawnWorkers(SystemTopic::Trace, 32)) <==> t,
        spec_system_plan(NodeType::Host, a, t).contains(SystemStep::Register(SystemTopic::WorkerDiscovery)),
        spec_system_plan(NodeType::Host, a, t).contains(SystemStep::Register(SystemTopic::WorkerHeartbeat)),
        spec_system_plan(NodeType::Host, a, t).contains(SystemStep::Register(SystemTopic::WalSync)),
        spec_system_plan(NodeType::Host, a, t).contains(SystemStep::Register(SystemTopic::Shutdown)),
        spec_system_plan(NodeType::Host, a, t).contains(SystemStep::Register(SystemTopic::ShutdownAck)),
        spec_system_plan(NodeType::Host, a, t).contains(SystemStep::Register(SystemTopic::TopicDiscovery)),
        spec_system_plan(NodeType::Host, a, t).contains(SystemStep::Register(SystemTopic::TopicSync)),
        !spec_system_plan(NodeType::Host, a, t).contains(SystemStep::Register(SystemTopic::Metrics)),
        !spec_system_plan(NodeType::Worker, a, t).contains(SystemStep::Register(SystemTopic::Audit)),
        !spec_system_plan(NodeType::Worker, a, t).contains(SystemStep::Register(SystemTopic::Trace)),
        spec_system_plan(NodeType::Worker, a, t).contains(SystemStep::Register(SystemTopic::Shutdown)),
        spec_system_plan(NodeType::Worker, a, t).contains(SystemStep::Register(SystemTopic::TopicSync)),
        spec_system_plan(NodeType::Worker, a, t).contains(SystemStep::Register(SystemTopic::Metrics)),
{
    let n = SYSTEM_WORKER_COUNT;
    assert(n == 32);
    let audit = if a {
        seq![SystemStep::Register(SystemTopic::Audit), SystemStep::SpawnWorkers(SystemTopic::Audit, n)]
    } else {
        Seq::empty()
    };
    let trace = if t {
        seq![SystemStep::Register(SystemTopic::Trace), SystemStep::SpawnWorkers(SystemTopic::Trace, n)]
    } else {
        Seq::empty()
    };
    let rest = seq![
        SystemStep::Register(SystemTopic::WorkerDiscovery),
        SystemStep::SpawnWorkers(SystemTopic::WorkerDiscovery, n),
        SystemStep::Register(SystemTopic::WorkerHeartbeat),
        SystemStep::SpawnWorkers(SystemTopic::WorkerHeartbeat, n),
        SystemStep::Register(SystemTopic::WalSync),
        SystemStep::SpawnWorkers(SystemTopic::WalSync, n),
        SystemStep::Register(SystemTopic::Shutdown),
        SystemStep::Register(SystemTopic::ShutdownAck),
        SystemStep::Register(SystemTopic::TopicDiscovery),
        SystemStep::Register(SystemTopic::TopicSync),
        SystemStep::StartCollector,
        SystemStep::SpawnWorkers(SystemTopic::Shutdown, n),
        SystemStep::SpawnWorkers(SystemTopic::ShutdownAck, n),
        SystemStep::SpawnWorkers(SystemTopic::TopicDiscovery, n),
        SystemStep::SpawnWorkers(SystemTopic::TopicSync, n),
    ];
    let h = spec_system_plan(NodeType::Host, a, t);
    assert(h == audit + trace + rest);
    let w = spec_system_plan(NodeType::Worker, a, t);
    lemma_contains_concat3(audit, trace, rest, SystemStep::Register(SystemTopic::Audit));
    lemma_contains_concat3(audit, trace, rest, SystemStep::SpawnWorkers(SystemTopic::Audit, 32));
    lemma_contains_concat3(audit, trace, rest, SystemStep::Register(SystemTopic::Trace));
    lemma_contains_concat3(audit, trace, rest, SystemStep::SpawnWorkers(SystemTopic::Trace, 32));
    lemma_contains_concat3(audit, trace, rest, SystemStep::Register(SystemTopic::Metrics));
    lemma_contains_concat3(audit, trace, rest, SystemStep::Register(SystemTopic::WorkerDiscovery));
    lemma_contains_concat3(audit, trace, rest, SystemStep::Register(SystemTopic::WorkerHeartbeat));
    lemma_contains_concat3(audit, trace, rest, SystemStep::Register(SystemTopic::WalSync));
    lemma_contains_concat3(audit, trace, rest, SystemStep::Register(SystemTopic::Shutdown));
    lemma_contains_concat3(audit, trace, rest, SystemStep::Register(SystemTopic::ShutdownAck));
    lemma_contains_concat3(audit, trace, rest, SystemStep::Register(SystemTopic::TopicDiscovery));
    lemma_contains_concat3(audit, trace, rest, SystemStep::Register(SystemTopic::TopicSync));
    assert(rest[0] == SystemStep::Register(SystemTopic::WorkerDiscovery));
    assert(rest[2] == SystemStep::Register(SystemTopic::WorkerHeartbeat));
    assert(rest[4] == SystemStep::Register(SystemTopic::WalSync));
    assert(rest[6] == SystemStep::Register(SystemTopic::Shutdown));
    assert(rest[7] == SystemStep::Register(SystemTopic::ShutdownAck));
    assert(rest[8] == SystemStep::Register(SystemTopic::TopicDiscovery));
    assert(rest[9] == SystemStep::Register(SystemTopic::TopicSync));
    if a {
        assert(audit[0] == SystemStep::Register(SystemTopic::Audit));
        assert(audit[1] == SystemStep::SpawnWorkers(SystemTopic::Audit, 32));
    }
    if t {
        assert(trace[0] == SystemStep::Register(SystemTopic::Trace));
        assert(trace[1] == SystemStep::SpawnWorkers(SystemTopic::Trace, 32));
    }
    assert(w[0] == SystemStep::Register(SystemTopic::Shutdown));
    assert(w[1] == SystemStep::Register(SystemTopic::TopicSync));
    assert(w[2] == SystemStep::Register(SystemTopic::Metrics));
}

/// An element of `a + b + c` is an element of one of the three.
proof fn lemma_contains_concat3(a: Seq<SystemStep>, b: Seq<SystemStep>, c: Seq<SystemStep>, x: SystemStep)
    ensures
        (a + b + c).contains(x) <==> a.contains(x) || b.contains(x) || c.contains(x),
{
    let s = a + b + c;
    if s.contains(x) {
        let i = choose|i: int| 0 <= i < s.len() && s[i] == x;
        if i < a.len() {
            assert(a[i] == x);
        } else if i < a.len() + b.len() {
            assert(b[i - a.len()] == x);
        } else {
            assert(c[i - a.len() - b.len()] == x);
        }
    }
    if a.contains(x) {
        let i = choose|i: int| 0 <= i < a.len() && a[i] == x;
        assert(s[i] == x);
    }
    if b.contains(x) {
        let i = choose|i: int| 0 <= i < b.len() && b[i] == x;
        assert(s[a.len() + i] == x);
    }
    if c.contains(x) {
        let i = choose|i: int| 0 <= i < c.len() && c[i] == x;
        assert(s[a.len() + b.len() + i] == x);
    }
}

} // verus!
