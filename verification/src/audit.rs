//! Audit records of the message lifecycle and the bounded buffer of the
//! most recent ones.

use vstd::prelude::*;
use crate::message::clone_opt_string;
use crate::time::{Nanos, Timestamp};
use ringbuf::traits::{Observer, RingBuffer, Consumer};

verus! {

/// One event in the life of a message.
#[derive(Debug)]
pub struct AuditRecord {
    /// The message audited.
    pub message_id: String,
    /// Its topic.
    pub topic: String,
    /// What happened.
    pub event_type: AuditEventType,
    /// The worker involved, if any.
    pub worker_id: Option<String>,
    /// When the record was made.
    pub timestamp: Timestamp,
    /// The outcome.
    pub result: AuditResult,
    /// Error text, if the operation failed.
    pub error: Option<String>,
    /// Processing time, where it applies.
    pub duration: Option<Nanos>,
}

/// Kinds of audit event.
#[derive(Debug, Clone, Copy, PartialEq, Eq, Structural)]
pub enum AuditEventType {
    /// The message was enqueued.
    Enqueued,
    /// Processing started.
    ProcessingStarted,
    /// Processing completed.
    ProcessingCompleted,
    /// The message is being retried.
    Retry,
    /// The message was dead-lettered.
    DeadLettered,
}

/// Outcome of a processing step.
#[derive(Debug, Clone, Copy, PartialEq, Eq, Structural)]
pub enum AuditResult {
    /// Processing began.
    Start,
    /// Processing succeeded.
    Success,
    /// Processing failed.
    Failure,
    /// The message will be retried.
    Retry,
    /// The message was dead-lettered.
    Dead,
}

impl AuditRecord {
    /// A copy of the record.
    pub fn duplicate(&self) -> (r: AuditRecord)
        ensures
            r == *self,
    {
        AuditRecord {
            message_id: self.message_id.clone(),
            topic: self.topic.clone(),
            event_type: self.event_type,
            worker_id: clone_opt_string(&self.worker_id),
            timestamp: self.timestamp,
            result: self.result,
            error: clone_opt_string(&self.error),
            duration: self.duration,
        }
    }
}

/// The ring buffer of the `ringbuf` crate (`HeapRb`), holding audit records.
#[verifier::external_body]
pub struct AuditRing {
    rb: ringbuf::HeapRb<AuditRecord>,
}

/// The records held by a ring, oldest first.
pub uninterp spec fn audit_ring_contents(r: AuditRing) -> Seq<AuditRecord>;

/// The capacity a ring was made with.
pub uninterp spec fn audit_ring_capacity(r: AuditRing) -> nat;

/// A ring that holds no record and up to `capacity` records.
///
/// Calls `HeapRb::new`, which panics on a zero capacity (so `requires`
/// rules it out) and otherwise returns an empty ring of that capacity.
#[verifier::external_body]
fn ring_new(capacity: usize) -> (r: AuditRing)
    requires
        capacity > 0,
    ensures
        audit_ring_contents(r) == Seq::<AuditRecord>::empty(),
        audit_ring_capacity(r) == capacity,
{
    AuditRing { rb: ringbuf::HeapRb::new(capacity) }
}

/// Appends `rec` at the newest end, dropping the oldest record first when
/// the ring is full.
///
/// Calls `RingBuffer::push_overwrite`, which pops the front item when the
/// ring is full and then pushes at the back; the capacity is unchanged
/// and a ring never holds more than its capacity.
#[verifier::external_body]
fn ring_push_overwrite(r: &mut AuditRing, rec: AuditRecord)
    requires
        audit_ring_contents(*old(r)).len() <= audit_ring_capacity(*old(r)),
    ensures
        audit_ring_capacity(*final(r)) == audit_ring_capacity(*old(r)),
        audit_ring_contents(*final(r)) == (if audit_ring_contents(*old(r)).len() >= audit_ring_capacity(*old(r)) {
            audit_ring_contents(*old(r)).drop_first().push(rec)
        } else {
            audit_ring_contents(*old(r)).push(rec)
        }),
        audit_ring_contents(*final(r)).len() <= audit_ring_capacity(*final(r)),
{
    let _ = r.rb.push_overwrite(rec);
}

/// Number of records held.
///
/// Calls `Observer::occupied_len`, which counts the records held.
#[verifier::external_body]
fn ring_len(r: &AuditRing) -> (n: usize)
    ensures
        n == audit_ring_contents(*r).len(),
{
    r.rb.occupied_len()
}

/// The record at position `i`, counted from the oldest.
///
/// Calls `Consumer::iter`, which walks the records front (oldest) to back,
/// and `Iterator::nth`.
#[verifier::external_body]
fn ring_nth(r: &AuditRing, i: usize) -> (o: Option<&AuditRecord>)
    ensures
        i < audit_ring_contents(*r).len() ==> o == Some(&audit_ring_contents(*r)[i as int]),
        i >= audit_ring_contents(*r).len() ==> o is None,
{
    r.rb.iter().nth(i)
}

/// The bounded buffer of the most recent audit records.
pub struct AuditBuffer {
    ring: AuditRing,
}

/// The records kept after recording `r` into `records` with room for
/// `capacity`: the oldest is dropped when full.
pub open spec fn record_step(records: Seq<AuditRecord>, capacity: nat, r: AuditRecord) -> Seq<AuditRecord> {
    if records.len() == capacity {
        records.drop_first().push(r)
    } else {
        records.push(r)
    }
}

/// The records kept after recording each of `rs` in turn.
pub open spec fn record_all(records: Seq<AuditRecord>, capacity: nat, rs: Seq<AuditRecord>) -> Seq<AuditRecord>
    decreases rs.len(),
{
    if rs.len() == 0 {
        records
    } else {
        record_step(record_all(records, capacity, rs.drop_last()), capacity, rs.last())
    }
}

/// The last `capacity` entries of `rs` (all of them when there are fewer).
pub open spec fn last_n<A>(rs: Seq<A>, capacity: nat) -> Seq<A> {
    if rs.len() <= capacity { rs } else { rs.subrange(rs.len() - capacity, rs.len() as int) }
}

/// The `count` most recent entries of `s`, newest first.
pub open spec fn newest_first<A>(s: Seq<A>, count: int) -> Seq<A> {
    let n = if count < s.len() { count } else { s.len() as int };
    Seq::new(n as nat, |i: int| s[s.len() - 1 - i])
}

impl AuditBuffer {
    /// The records held, oldest first.
    pub closed spec fn records(&self) -> Seq<AuditRecord> {
        audit_ring_contents(self.ring)
    }

    /// The capacity.
    pub closed spec fn capacity(&self) -> nat {
        audit_ring_capacity(self.ring)
    }

    /// Never more records than the capacity, and a positive capacity.
    pub open spec fn wf(&self) -> bool {
        &&& self.capacity() > 0
        &&& self.records().len() <= self.capacity()
    }

    /// An empty buffer holding up to `capacity` records.
    pub fn new(capacity: usize) -> (b: AuditBuffer)
        requires
            capacity > 0,
        ensures
            b.wf(),
            b.capacity() == capacity,
            b.records() == Seq::<AuditRecord>::empty(),
    {
        AuditBuffer { ring: ring_new(capacity) }
    }

    /// Adds `record` as the newest, dropping the oldest when full.
    pub fn record(&mut self, record: AuditRecord)
        requires
            old(self).wf(),
        ensures
            final(self).wf(),
            final(self).capacity() == old(self).capacity(),
            final(self).records() == record_step(old(self).records(), old(self).capacity(), record),
    {
        ring_push_overwrite(&mut self.ring, record);
    }

    /// Copies of the `count` most recent records, newest first.
    pub fn get_recent(&self, count: usize) -> (v: Vec<AuditRecord>)
        requires
            self.wf(),
        ensures
            v@ == newest_first(self.records(), count as int),
    {
        let len = ring_len(&self.ring);
        let n = if count < len { count } else { len };
        let mut out: Vec<AuditRecord> = Vec::new();
        let mut i: usize = 0;
        while i < n
            invariant
                n <= len,
                len == self.records().len(),
                n == (if count < len { count } else { len }),
                i <= n,
                out@.len() == i,
                forall|j: int| 0 <= j < i ==> out@[j] == self.records()[len - 1 - j],
            decreases n - i,
        {
            let o = ring_nth(&self.ring, len - 1 - i);
            match o {
                Some(rec) => {
                    out.push(rec.duplicate());
                },
                None => {
                    assert(false);
                },
            }
            i = i + 1;
        }
        assert(out@ =~= newest_first(self.records(), count as int));
        out
    }
}

/// Whatever was recorded last is the first of the recent records, and a
/// buffer never holds more than its capacity.
pub proof fn lemma_recent_after_record(records: Seq<AuditRecord>, capacity: nat, rec: AuditRecord, count: int)
    requires
        capacity > 0,
        records.len() <= capacity,
        count >= 1,
    ensures
        ({
            let after = record_step(records, capacity, rec);
            &&& after.len() <= capacity
            &&& newest_first(after, count)[0] == rec
            &&& after.len() == (if records.len() == capacity { records.len() } else { records.len() + 1 })
        }),
{
}

/// A buffer keeps the last `capacity` records recorded into it: starting
/// empty and recording `rs` in order, it holds the last `capacity` of them,
/// oldest first.
pub proof fn lemma_record_all_keeps_last(capacity: nat, rs: Seq<AuditRecord>)
    requires
        capacity > 0,
    ensures
        record_all(Seq::empty(), capacity, rs) == last_n(rs, capacity),
    decreases rs.len(),
{
    if rs.len() > 0 {
        let p = rs.drop_last();
        lemma_record_all_keeps_last(capacity, p);
        if p.len() < capacity {
            assert(p.push(rs.last()) =~= rs);
        } else {
            let prev = p.subrange(p.len() - capacity, p.len() as int);
            assert(prev.drop_first().push(rs.last()) =~= rs.subrange(rs.len() - capacity, rs.len() as int));
        }
    }
}

/// Recent records after a sequence of records: recording `rs` in order
/// into an empty buffer of capacity `capacity` and asking for the `count`
/// most recent gives the last `j` of `rs`, newest first, where `j` is the
/// least of `count`, the number of records and the capacity.
pub proof fn lemma_recent_after_records(capacity: nat, rs: Seq<AuditRecord>, count: int)
    requires
        capacity > 0,
        count >= 0,
    ensures
        ({
            let recent = newest_first(record_all(Seq::empty(), capacity, rs), count);
            let j = if count <= rs.len() && count <= capacity { count }
                else if rs.len() <= capacity { rs.len() as int } else { capacity as int };
            &&& recent.len() == j
            &&& forall|i: int| 0 <= i < j ==> recent[i] == rs[rs.len() - 1 - i]
        }),
{
    lemma_record_all_keeps_last(capacity, rs);
}

} // verus!
