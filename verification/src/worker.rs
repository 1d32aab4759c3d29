//! The decisions a worker makes around each message: the audit and log
//! updates before the handler runs, and after it, what the handler's
//! answer means for repeats, retries and dead-lettering.

use vstd::prelude::*;
use crate::audit::{AuditEventType, AuditRecord, AuditResult};
use crate::constant::{DEAD_LETTER_PREFIX, SYSTEM_TOPIC_AUDIT, SYSTEM_TOPIC_PREFIX};
use crate::dead_letter::DeadReason;
use crate::error::CoreError;
use crate::handler::Ack;
use crate::message::{DeliveryMode, EMessage, MessageTopic, fresh_id, is_hyphenated_uuid};
use crate::text::{equals_str, spec_starts_with, starts_with};
use crate::time::{Nanos, Timestamp, spec_add_delay, MAX_DURATION_NANOS};
use crate::wal::{WalClient, WalRecordState, WalSyncMessage};

verus! {

/// Whether a worker is handling a message.
#[derive(Debug, Clone, Copy, PartialEq, Eq, Structural)]
pub enum WorkerStatus {
    /// Waiting for a message.
    Idle,
    /// Processing a message.
    Working,
}

/// One step of a worker's processing, to be carried out in order. A
/// failed audit step is only reported; any other failed step ends the
/// processing with its error.
#[derive(Debug)]
pub enum WorkerAction {
    /// Send the record on the audit topic.
    Audit(AuditRecord),
    /// Send the status update to the log.
    Wal(WalSyncMessage),
    /// Put the message back on the worker's own topic queue.
    Requeue(EMessage),
    /// Send the message through the topic router to the named topic.
    Route(String, EMessage),
}

/// Topics under the system prefix.
pub open spec fn is_system_topic(t: Seq<char>) -> bool {
    spec_starts_with(t, SYSTEM_TOPIC_PREFIX@)
}

/// The dead-letter topic of a worker's topic.
pub open spec fn dead_letter_topic(t: Seq<char>) -> Seq<char> {
    DEAD_LETTER_PREFIX@ + t
}

/// The name of a worker for `topic` with random part `id`.
pub open spec fn worker_name_of(topic: Seq<char>, id: Seq<char>) -> Seq<char> {
    "worker-"@ + topic + "-"@ + id
}

/// `a` sends the log update with these fields, stamped `now`.
pub open spec fn wal_is(
    a: WorkerAction,
    worker: Seq<char>,
    status: WalRecordState,
    id: Seq<char>,
    topic: Seq<char>,
    attempts: u32,
    error: Option<Seq<char>>,
    now: Timestamp,
) -> bool {
    &&& a matches WorkerAction::Wal(m)
    &&& m.message_id@ == id
    &&& m.topic@ == topic
    &&& m.worker_id@ == worker
    &&& m.status == status
    &&& m.attempts == attempts
    &&& match error {
        Some(e) => m.error matches Some(x) && x@ == e,
        None => m.error is None,
    }
    &&& m.last_attempt_at == now
    &&& m.timestamp == now
}

/// `a` sends the audit record with these fields, stamped `now`.
pub open spec fn audit_is(
    a: WorkerAction,
    worker: Seq<char>,
    id: Seq<char>,
    topic: Seq<char>,
    event: AuditEventType,
    result: AuditResult,
    duration: Option<Nanos>,
    now: Timestamp,
) -> bool {
    &&& a matches WorkerAction::Audit(r)
    &&& r.message_id@ == id
    &&& r.topic@ == topic
    &&& r.event_type == event
    &&& r.worker_id matches Some(w) && w@ == worker
    &&& r.timestamp == now
    &&& r.result == result
    &&& r.error is None
    &&& r.duration == duration
}

/// The steps of dead-lettering `m` for reason `reason`: mark it failed
/// under the dead-letter topic, send it there, and audit it (except on
/// the audit topic's own workers).
pub open spec fn dead_letter_steps(
    u: Seq<WorkerAction>,
    worker: Seq<char>,
    wtopic: Seq<char>,
    m: EMessage,
    reason: DeadReason,
    pt: Nanos,
    now: Timestamp,
) -> bool {
    let dl = dead_letter_topic(wtopic);
    &&& u.len() == (if wtopic != SYSTEM_TOPIC_AUDIT@ { 3int } else { 2int })
    &&& wal_is(u[0], worker, WalRecordState::Failed, m.id@, dl, m.attempts, Some(reason.spec_describe()), now)
    &&& u[1] matches WorkerAction::Route(t, x) && t@ == dl && x.topic.0@ == dl
        && x == (EMessage { topic: x.topic, ..m })
    &&& wtopic != SYSTEM_TOPIC_AUDIT@ ==> audit_is(u[2], worker, m.id@, dl, AuditEventType::DeadLettered,
        AuditResult::Dead, Some(pt), now)
}

/// The reason a dead answer is dead-lettered for: a handler that timed
/// out is recorded as such, any other dead answer as the handler's own
/// (explicit) decision.
pub open spec fn dead_letter_reason(r: DeadReason) -> DeadReason {
    match r {
        DeadReason::Timeout => DeadReason::Timeout,
        _ => DeadReason::Explicit,
    }
}

/// The steps after the handler answered `outcome` for `msg`, which took
/// `pt` nanoseconds.
pub open spec fn finish_steps(
    v: Seq<WorkerAction>,
    worker: Seq<char>,
    wtopic: Seq<char>,
    msg: EMessage,
    outcome: Ack,
    pt: Nanos,
    now: Timestamp,
) -> bool {
    match outcome {
        Ack::Ack => match msg.delivery_mode {
            DeliveryMode::Repeated(times) => {
                let m2 = EMessage { consumed_count: (msg.consumed_count + 1) as u32, ..msg };
                if times == msg.consumed_count + 1 {
                    &&& v.len() == 1
                    &&& wal_is(v[0], worker, WalRecordState::Complete, msg.id@, msg.topic.0@, msg.attempts, None, now)
                } else {
                    &&& v.len() == 3
                    &&& wal_is(v[0], worker, WalRecordState::Pending, msg.id@, msg.topic.0@, 0, None, now)
                    &&& wal_is(v[1], worker, WalRecordState::Pending, msg.id@, msg.topic.0@, 0, None, now)
                    &&& v[2] == WorkerAction::Requeue(m2)
                }
            },
            _ => if wtopic != SYSTEM_TOPIC_AUDIT@ {
                &&& v.len() == 2
                &&& audit_is(v[0], worker, msg.id@, msg.topic.0@, AuditEventType::ProcessingCompleted,
                    AuditResult::Success, Some(pt), now)
                &&& wal_is(v[1], worker, WalRecordState::Complete, msg.id@, msg.topic.0@, msg.attempts, None, now)
            } else {
                &&& v.len() == 1
                &&& wal_is(v[0], worker, WalRecordState::Complete, msg.id@, msg.topic.0@, msg.attempts, None, now)
            },
        },
        Ack::NoAck { retry_after, max_retries } => {
            let m2 = EMessage { attempts: (msg.attempts + 1) as u32, ..msg };
            &&& v.len() >= 1
            &&& wal_is(v[0], worker, WalRecordState::Pending, msg.id@, msg.topic.0@, 0, None, now)
            &&& if m2.attempts > max_retries {
                dead_letter_steps(v.subrange(1, v.len() as int), worker, wtopic, m2,
                    DeadReason::MaxRetriesExceeded, pt, now)
            } else {
                match retry_after {
                    Some(d) => {
                        &&& v.len() == 2
                        &&& v[1] matches WorkerAction::Route(t, x) && t@ == msg.topic.0@
                            && x == (EMessage {
                                deliver_at: match spec_add_delay(now as int, d as int) {
                                    Some(at) => Some(at as i128),
                                    None => None,
                                },
                                ..m2
                            })
                    },
                    None => v.len() == 2 && v[1] == WorkerAction::Requeue(m2),
                }
            }
        },
        Ack::Dead { dead_reason } => {
            &&& v.len() >= 1
            &&& wal_is(v[0], worker, WalRecordState::Failed, msg.id@, msg.topic.0@, msg.attempts,
                Some(dead_reason.spec_describe()), now)
            &&& dead_letter_steps(v.subrange(1, v.len() as int), worker, wtopic, msg,
                dead_letter_reason(dead_reason), pt, now)
        },
    }
}

/// A worker's fixed settings and the log client it reports through.
#[derive(Debug)]
pub struct WorkerCore {
    topic: String,
    name: String,
    time_out: Option<Nanos>,
    shutdown_check_interval: Nanos,
    shutdown_timeout: Option<Nanos>,
    wal: WalClient,
}

impl WorkerCore {
    /// The topic consumed.
    pub closed spec fn spec_topic(&self) -> Seq<char> { self.topic@ }
    /// The worker's name.
    pub closed spec fn spec_name(&self) -> Seq<char> { self.name@ }
    /// Per-message time limit of the handler.
    pub closed spec fn spec_time_out(&self) -> Option<Nanos> { self.time_out }
    /// Polling interval while shutting down.
    pub closed spec fn spec_check_interval(&self) -> Nanos { self.shutdown_check_interval }
    /// Longest wait for the current message while shutting down.
    pub closed spec fn spec_shutdown_timeout(&self) -> Option<Nanos> { self.shutdown_timeout }

    /// The log client reports under the worker's name.
    pub closed spec fn wf(&self) -> bool {
        self.wal.worker() == self.name@
    }

    /// A worker for `topic` named after it and the random `id`.
    pub fn new_with(
        topic: String,
        id: &String,
        time_out: Option<Nanos>,
        shutdown_check_interval: Nanos,
        shutdown_timeout: Option<Nanos>,
    ) -> (w: WorkerCore)
        ensures
            w.wf(),
            w.spec_topic() == topic@,
            w.spec_name() == worker_name_of(topic@, id@),
            w.spec_time_out() == time_out,
            w.spec_check_interval() == shutdown_check_interval,
            w.spec_shutdown_timeout() == shutdown_timeout,
    {
        let name = String::from_str("worker-").concat(topic.as_str()).concat("-").concat(id.as_str());
        assert(name@ =~= worker_name_of(topic@, id@));
        let wal = WalClient::new(name.clone());
        WorkerCore { topic, name, time_out, shutdown_check_interval, shutdown_timeout, wal }
    }

    /// A worker for `topic` with a fresh random name.
    pub fn new(
        topic: String,
        time_out: Option<Nanos>,
        shutdown_check_interval: Nanos,
        shutdown_timeout: Option<Nanos>,
    ) -> (w: WorkerCore)
        ensures
            w.wf(),
            w.spec_topic() == topic@,
            exists|id: Seq<char>| is_hyphenated_uuid(id) && w.spec_name() == worker_name_of(topic@, id),
            w.spec_time_out() == time_out,
            w.spec_check_interval() == shutdown_check_interval,
            w.spec_shutdown_timeout() == shutdown_timeout,
    {
        let id = fresh_id();
        let w = WorkerCore::new_with(topic, &id, time_out, shutdown_check_interval, shutdown_timeout);
        assert(is_hyphenated_uuid(id@) && w.spec_name() == worker_name_of(w.spec_topic(), id@));
        w
    }

    /// The topic consumed.
    pub fn topic(&self) -> (t: &String)
        ensures
            t@ == self.spec_topic(),
    {
        &self.topic
    }

    /// The worker's name.
    pub fn name(&self) -> (n: &String)
        ensures
            n@ == self.spec_name(),
    {
        &self.name
    }

    /// Per-message time limit of the handler.
    pub fn time_out(&self) -> (t: Option<Nanos>)
        ensures
            t == self.spec_time_out(),
    {
        self.time_out
    }

    /// Polling interval while shutting down.
    pub fn shutdown_check_interval(&self) -> (t: Nanos)
        ensures
            t == self.spec_check_interval(),
    {
        self.shutdown_check_interval
    }

    /// Longest wait for the current message while shutting down.
    pub fn shutdown_timeout(&self) -> (t: Option<Nanos>)
        ensures
            t == self.spec_shutdown_timeout(),
    {
        self.shutdown_timeout
    }

    /// Whether the worker consumes a system topic.
    pub fn is_system(&self) -> (b: bool)
        ensures
            b == is_system_topic(self.spec_topic()),
    {
        starts_with(&self.topic, SYSTEM_TOPIC_PREFIX)
    }

    /// Whether the worker consumes the audit topic.
    pub fn is_audit_worker(&self) -> (b: bool)
        ensures
            b == (self.spec_topic() == SYSTEM_TOPIC_AUDIT@),
    {
        equals_str(&self.topic, SYSTEM_TOPIC_AUDIT)
    }

    /// The audit record of `msg` made by this worker at `now`.
    pub fn generate_audit_msg(
        &self,
        msg: &EMessage,
        result: AuditResult,
        audit_event_type: AuditEventType,
        error: Option<String>,
        duration: Option<Nanos>,
        now: Timestamp,
    ) -> (r: AuditRecord)
        ensures
            r.message_id@ == msg.id@,
            r.topic@ == msg.topic.0@,
            r.event_type == audit_event_type,
            r.worker_id matches Some(w) && w@ == self.spec_name(),
            r.timestamp == now,
            r.result == result,
            r.error == error,
            r.duration == duration,
    {
        AuditRecord {
            message_id: msg.id.clone(),
            topic: msg.topic.0.clone(),
            event_type: audit_event_type,
            worker_id: Some(self.name.clone()),
            timestamp: now,
            result,
            error,
            duration,
        }
    }

    fn wal_step(&self, msg: &EMessage, status: WalRecordState, attempts: u32, error: Option<String>, now: Timestamp) -> (a: WorkerAction)
        requires
            self.wf(),
        ensures
            wal_is(a, self.spec_name(), status, msg.id@, msg.topic.0@, attempts,
                match error { Some(e) => Some(e@), None => None }, now),
    {
        WorkerAction::Wal(self.wal.sync_status_at(&msg.id, &msg.topic.0, status, attempts, error, now, now))
    }

    /// The steps before the handler runs: on a user topic, an audit of
    /// the start (not on the audit topic) and the log update marking the
    /// message in processing; on a system topic, none.
    pub fn begin(&self, msg: &EMessage, now: Timestamp) -> (v: Vec<WorkerAction>)
        requires
            self.wf(),
        ensures
            is_system_topic(self.spec_topic()) ==> v@.len() == 0,
            !is_system_topic(self.spec_topic()) && self.spec_topic() != SYSTEM_TOPIC_AUDIT@ ==> {
                &&& v@.len() == 2
                &&& audit_is(v@[0], self.spec_name(), msg.id@, msg.topic.0@, AuditEventType::ProcessingStarted,
                    AuditResult::Start, None, now)
                &&& wal_is(v@[1], self.spec_name(), WalRecordState::Processing, msg.id@, msg.topic.0@, 0, None, now)
            },
            !is_system_topic(self.spec_topic()) && self.spec_topic() == SYSTEM_TOPIC_AUDIT@ ==> {
                &&& v@.len() == 1
                &&& wal_is(v@[0], self.spec_name(), WalRecordState::Processing, msg.id@, msg.topic.0@, 0, None, now)
            },
    {
        let mut v: Vec<WorkerAction> = Vec::new();
        if self.is_system() {
            return v;
        }
        if !self.is_audit_worker() {
            v.push(WorkerAction::Audit(self.generate_audit_msg(msg, AuditResult::Start,
                AuditEventType::ProcessingStarted, None, None, now)));
        }
        v.push(self.wal_step(msg, WalRecordState::Processing, 0, None, now));
        v
    }

    /// The dead-letter topic of this worker.
    pub fn dead_letter_topic_name(&self) -> (t: String)
        ensures
            t@ == dead_letter_topic(self.spec_topic()),
    {
        String::from_str(DEAD_LETTER_PREFIX).concat(self.topic.as_str())
    }

    fn dead_letter(&self, msg: EMessage, reason: DeadReason, process_time: Nanos, now: Timestamp, v: &mut Vec<WorkerAction>)
        requires
            self.wf(),
        ensures
            final(v)@.len() >= old(v)@.len(),
            final(v)@.subrange(0, old(v)@.len() as int) == old(v)@,
            dead_letter_steps(final(v)@.subrange(old(v)@.len() as int, final(v)@.len() as int), self.spec_name(),
                self.spec_topic(), msg, reason, process_time, now),
    {
        let ghost start = v@.len();
        let dl = self.dead_letter_topic_name();
        let mut m = msg;
        m.topic = MessageTopic(dl.clone());
        let audit = if !self.is_audit_worker() {
            Some(self.generate_audit_msg(&m, AuditResult::Dead, AuditEventType::DeadLettered, None,
                Some(process_time), now))
        } else {
            None
        };
        v.push(self.wal_step(&m, WalRecordState::Failed, m.attempts, Some(reason.describe()), now));
        v.push(WorkerAction::Route(dl, m));
        match audit {
            Some(a) => v.push(WorkerAction::Audit(a)),
            None => {},
        }
        assert(final(v)@.subrange(0, start as int) =~= old(v)@);
    }

    /// The steps after the handler answered `outcome` for `msg`, given
    /// when processing started and finished and the current instant.
    ///
    /// On a system topic there are none. Otherwise a clock that went
    /// backwards is `ProcessTimeError`; else the steps are those of
    /// `finish_steps`: a repeated message is counted and either completed
    /// or requeued; a success is audited and completed; a refusal counts
    /// an attempt and is dead-lettered once the attempts exceed the
    /// allowed retries, else sent again after its delay or requeued; a
    /// dead answer is marked failed with its reason and dead-lettered as a
    /// timeout or, otherwise, as the handler's explicit decision.
    pub fn finish(&self, msg: EMessage, outcome: Ack, start: Timestamp, finish: Timestamp, now: Timestamp)
        -> (r: Result<Vec<WorkerAction>, CoreError>)
        requires
            self.wf(),
            -MAX_DURATION_NANOS <= start <= MAX_DURATION_NANOS,
            -MAX_DURATION_NANOS <= finish <= MAX_DURATION_NANOS,
            !is_system_topic(self.spec_topic()) && outcome is Ack && msg.delivery_mode is Repeated
                ==> msg.consumed_count < u32::MAX,
            !is_system_topic(self.spec_topic()) && outcome is NoAck ==> msg.attempts < u32::MAX,
        ensures
            is_system_topic(self.spec_topic()) ==> (r matches Ok(v) && v@.len() == 0),
            !is_system_topic(self.spec_topic()) && finish < start
                ==> r == Err::<Vec<WorkerAction>, CoreError>(CoreError::ProcessTimeError((start - finish) as u128)),
            !is_system_topic(self.spec_topic()) && start <= finish
                ==> (r matches Ok(v) && finish_steps(v@, self.spec_name(), self.spec_topic(), msg, outcome,
                    (finish - start) as u128, now)),
    {
        if self.is_system() {
            return Ok(Vec::new());
        }
        let process_time = match crate::time::elapsed(finish, start) {
            Ok(d) => d,
            Err(d) => {
                return Err(CoreError::ProcessTimeError(d));
            },
        };
        let mut v: Vec<WorkerAction> = Vec::new();
        match outcome {
            Ack::Ack => {
                match msg.delivery_mode {
                    DeliveryMode::Repeated(times) => {
                        let mut m = msg;
                        m.consumed_count = m.consumed_count + 1;
                        if times == m.consumed_count {
                            v.push(self.wal_step(&m, WalRecordState::Complete, m.attempts, None, now));
                            return Ok(v);
                        }
                        v.push(self.wal_step(&m, WalRecordState::Pending, 0, None, now));
                        v.push(self.wal_step(&m, WalRecordState::Pending, 0, None, now));
                        v.push(WorkerAction::Requeue(m));
                        return Ok(v);
                    },
                    _ => {},
                }
                let complete = self.wal_step(&msg, WalRecordState::Complete, msg.attempts, None, now);
                if !self.is_audit_worker() {
                    let audit = WorkerAction::Audit(self.generate_audit_msg(&msg, AuditResult::Success,
                        AuditEventType::ProcessingCompleted, None, Some(process_time), now));
                    v.push(audit);
                    v.push(complete);
                    assert(v@[0] == audit && v@[1] == complete);
                } else {
                    v.push(complete);
                    assert(v@[0] == complete);
                }
                assert(!(msg.delivery_mode is Repeated));
                Ok(v)
            },
            Ack::NoAck { retry_after, max_retries } => {
                let mut m = msg;
                m.attempts = m.attempts + 1;
                v.push(self.wal_step(&m, WalRecordState::Pending, 0, None, now));
                if m.attempts > max_retries {
                    let ghost first = v@[0];
                    self.dead_letter(m, DeadReason::MaxRetriesExceeded, process_time, now, &mut v);
                    assert(v@[0] == first);
                    return Ok(v);
                }
                match retry_after {
                    Some(delay) => {
                        m.deliver_at = crate::time::add_delay(now, delay);
                        let t = m.topic.0.clone();
                        v.push(WorkerAction::Route(t, m));
                    },
                    None => {
                        v.push(WorkerAction::Requeue(m));
                    },
                }
                Ok(v)
            },
            Ack::Dead { dead_reason } => {
                v.push(self.wal_step(&msg, WalRecordState::Failed, msg.attempts, Some(dead_reason.describe()), now));
                let ghost first = v@[0];
                let reason = match dead_reason {
                    DeadReason::Timeout => DeadReason::Timeout,
                    _ => DeadReason::Explicit,
                };
                self.dead_letter(msg, reason, process_time, now, &mut v);
                assert(v@[0] == first);
                Ok(v)
            },
        }
    }
}

/// Whether shutting down must keep waiting for the current message: the
/// worker is still working and, if there is a time limit, the time since
/// `started` (zero when the clock went backwards) does not exceed it.
pub fn shutdown_should_wait(status: WorkerStatus, started: Timestamp, now: Timestamp, timeout: Option<Nanos>) -> (b: bool)
    requires
        -MAX_DURATION_NANOS <= started <= MAX_DURATION_NANOS,
        -MAX_DURATION_NANOS <= now <= MAX_DURATION_NANOS,
    ensures
        b == (status == WorkerStatus::Working && match timeout {
            Some(to) => !((if started <= now { now - started } else { 0 }) > to),
            None => true,
        }),
{
    if status != WorkerStatus::Working {
        return false;
    }
    match timeout {
        Some(to) => {
            let waited: u128 = match crate::time::elapsed(now, started) {
                Ok(d) => d,
                Err(_) => 0,
            };
            !(waited > to)
        },
        None => true,
    }
}

/// A dead answer sends the message to the dead-letter queue, never back
/// to its own queue: after a `Dead` answer on a user topic the steps route
/// the message itself, readdressed to "dead_letter." followed by the
/// worker's topic, to that topic, route nowhere else, and requeue nothing.
pub proof fn lemma_dead_answer_dead_lettered(
    v: Seq<WorkerAction>,
    worker: Seq<char>,
    wtopic: Seq<char>,
    msg: EMessage,
    reason: DeadReason,
    pt: Nanos,
    now: Timestamp,
)
    requires
        finish_steps(v, worker, wtopic, msg, Ack::Dead { dead_reason: reason }, pt, now),
    ensures
        exists|i: int| 0 <= i < v.len() && (#[trigger] v[i] matches WorkerAction::Route(t, x)
            && t@ == "dead_letter."@ + wtopic && x.topic.0@ == "dead_letter."@ + wtopic
            && x.id == msg.id && x.payload == msg.payload && x.attempts == msg.attempts
            && x.delivery_mode == msg.delivery_mode),
        forall|i: int| 0 <= i < v.len() ==> !(#[trigger] v[i] is Requeue),
        forall|i: int| 0 <= i < v.len() ==> (#[trigger] v[i] matches WorkerAction::Route(t, _)
            ==> t@ == "dead_letter."@ + wtopic),
{
    let u = v.subrange(1, v.len() as int);
    assert(u[0] == v[1] && u[1] == v[2]);
    if wtopic != SYSTEM_TOPIC_AUDIT@ {
        assert(u[2] == v[3]);
    }
    assert(v[2] matches WorkerAction::Route(t, x) && t@ == "dead_letter."@ + wtopic);
}

/// Retries are bounded: a refusal that brings the attempts past
/// `max_retries` dead-letters the message (routes it, readdressed, to
/// "dead_letter." followed by the worker's topic, and requeues nothing);
/// a refusal that does not puts the message back on its own topic, with
/// one more attempt, and sends nothing to the dead-letter queue.
pub proof fn lemma_refusal_retried_or_dead_lettered(
    v: Seq<WorkerAction>,
    worker: Seq<char>,
    wtopic: Seq<char>,
    msg: EMessage,
    retry_after: Option<Nanos>,
    max_retries: u32,
    pt: Nanos,
    now: Timestamp,
)
    requires
        msg.attempts < u32::MAX,
        finish_steps(v, worker, wtopic, msg, Ack::NoAck { retry_after, max_retries }, pt, now),
    ensures
        msg.attempts + 1 > max_retries ==> {
            &&& exists|i: int| 0 <= i < v.len() && (#[trigger] v[i] matches WorkerAction::Route(t, x)
                && t@ == "dead_letter."@ + wtopic && x.topic.0@ == "dead_letter."@ + wtopic
                && x.id == msg.id && x.attempts == msg.attempts + 1)
            &&& forall|i: int| 0 <= i < v.len() ==> !(#[trigger] v[i] is Requeue)
        },
        msg.attempts + 1 <= max_retries ==> {
            &&& v.len() == 2
            &&& match v[1] {
                WorkerAction::Requeue(x) => retry_after is None && x.topic == msg.topic && x.id == msg.id
                    && x.attempts == msg.attempts + 1,
                WorkerAction::Route(t, x) => retry_after is Some && t@ == msg.topic.0@ && x.topic == msg.topic
                    && x.id == msg.id && x.attempts == msg.attempts + 1,
                _ => false,
            }
        },
{
    if msg.attempts + 1 > max_retries {
        let u = v.subrange(1, v.len() as int);
        assert(u[0] == v[1] && u[1] == v[2]);
        if wtopic != SYSTEM_TOPIC_AUDIT@ {
            assert(u[2] == v[3]);
        }
        assert(v[2] matches WorkerAction::Route(t, x) && t@ == "dead_letter."@ + wtopic);
    }
}

/// A success completes the message, or counts one more delivery of a
/// repeated message: on a user topic nothing is routed after an `Ack`; a
/// standard or broadcast message is marked complete and not requeued; a
/// repeated message is marked complete exactly on its `times`-th
/// consumption, and otherwise requeued on its own topic with one more
/// consumption counted and not marked complete.
pub proof fn lemma_ack_completes(
    v: Seq<WorkerAction>,
    worker: Seq<char>,
    wtopic: Seq<char>,
    msg: EMessage,
    pt: Nanos,
    now: Timestamp,
)
    requires
        msg.consumed_count < u32::MAX,
        finish_steps(v, worker, wtopic, msg, Ack::Ack, pt, now),
    ensures
        forall|i: int| 0 <= i < v.len() ==> !(#[trigger] v[i] is Route),
        !(msg.delivery_mode is Repeated) ==> {
            &&& exists|i: int| 0 <= i < v.len() && (#[trigger] v[i] matches WorkerAction::Wal(m)
                && m.status == WalRecordState::Complete && m.message_id@ == msg.id@)
            &&& forall|i: int| 0 <= i < v.len() ==> !(#[trigger] v[i] is Requeue)
        },
        msg.delivery_mode matches DeliveryMode::Repeated(times) ==> if msg.consumed_count + 1 == times {
            &&& v.len() == 1
            &&& v[0] matches WorkerAction::Wal(m) && m.status == WalRecordState::Complete && m.message_id@ == msg.id@
        } else {
            &&& exists|i: int| 0 <= i < v.len() && (#[trigger] v[i] matches WorkerAction::Requeue(x)
                && x.id == msg.id && x.topic == msg.topic && x.consumed_count == msg.consumed_count + 1)
            &&& forall|i: int| 0 <= i < v.len() ==> !(#[trigger] v[i] matches WorkerAction::Wal(m)
                && m.status == WalRecordState::Complete)
        },
{
    match msg.delivery_mode {
        DeliveryMode::Repeated(times) => {
            if msg.consumed_count + 1 != times {
                assert(v[2] matches WorkerAction::Requeue(x) && x.consumed_count == msg.consumed_count + 1);
            }
        },
        _ => {
            if wtopic != SYSTEM_TOPIC_AUDIT@ {
                assert(v[1] matches WorkerAction::Wal(m) && m.status == WalRecordState::Complete);
            } else {
                assert(v[0] matches WorkerAction::Wal(m) && m.status == WalRecordState::Complete);
            }
        },
    }
}

} // verus!
