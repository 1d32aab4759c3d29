//! Per-topic counts and latency sums, fed by audit records.

use vstd::prelude::*;
use crate::audit::{AuditEventType, AuditRecord};
use crate::strmap::StrMap;
use crate::time::{Nanos, MAX_DURATION_NANOS};

verus! {

/// Counters per topic: enqueued, completed, failed (dead-lettered) and
/// retried messages, and for completed messages with a measured duration
/// the number of measurements and their sum in nanoseconds.
pub struct MetricsAggregator {
    /// Enqueued messages per topic.
    pub enqueued: StrMap<u64>,
    /// Completed messages per topic.
    pub completed: StrMap<u64>,
    /// Dead-lettered messages per topic.
    pub failed: StrMap<u64>,
    /// Retries per topic.
    pub retried: StrMap<u64>,
    /// (measurements, total nanoseconds) of completed messages per topic.
    pub latency_sum: StrMap<(u64, Nanos)>,
}

/// The count stored for `k`, zero when absent.
pub open spec fn count_of(m: Map<Seq<char>, u64>, k: Seq<char>) -> int {
    if m.dom().contains(k) { m[k] as int } else { 0 }
}

/// The latency pair stored for `k`, `(0, 0)` when absent.
pub open spec fn latency_of(m: Map<Seq<char>, (u64, Nanos)>, k: Seq<char>) -> (int, int) {
    if m.dom().contains(k) { (m[k].0 as int, m[k].1 as int) } else { (0, 0) }
}

/// `m` with the count of `k` raised by one.
pub open spec fn bump(m: Map<Seq<char>, u64>, k: Seq<char>) -> Map<Seq<char>, u64> {
    m.insert(k, (count_of(m, k) + 1) as u64)
}

/// `m` with one more measurement of `d` nanoseconds for `k`.
pub open spec fn add_latency(m: Map<Seq<char>, (u64, Nanos)>, k: Seq<char>, d: Nanos) -> Map<Seq<char>, (u64, Nanos)> {
    m.insert(k, ((latency_of(m, k).0 + 1) as u64, (latency_of(m, k).1 + d) as u128))
}

/// The abstract state of an aggregator: the five maps.
pub struct AggregatorState {
    pub enqueued: Map<Seq<char>, u64>,
    pub completed: Map<Seq<char>, u64>,
    pub failed: Map<Seq<char>, u64>,
    pub retried: Map<Seq<char>, u64>,
    pub latency_sum: Map<Seq<char>, (u64, Nanos)>,
}

/// The state after feeding a record of kind `event`, for topic `k`, with
/// optional duration `duration`.
pub open spec fn spec_feed(s: AggregatorState, event: AuditEventType, k: Seq<char>, duration: Option<Nanos>) -> AggregatorState {
    match event {
        AuditEventType::Enqueued => AggregatorState { enqueued: bump(s.enqueued, k), ..s },
        AuditEventType::DeadLettered => AggregatorState { failed: bump(s.failed, k), ..s },
        AuditEventType::Retry => AggregatorState { retried: bump(s.retried, k), ..s },
        AuditEventType::ProcessingCompleted => AggregatorState {
            completed: bump(s.completed, k),
            latency_sum: match duration {
                Some(d) => add_latency(s.latency_sum, k, d),
                None => s.latency_sum,
            },
            ..s
        },
        AuditEventType::ProcessingStarted => s,
    }
}

/// Whether feeding such a record keeps every counter in range: counts
/// below `u64::MAX`, total latency within a `Duration`.
pub open spec fn spec_feed_fits(s: AggregatorState, event: AuditEventType, k: Seq<char>, duration: Option<Nanos>) -> bool {
    match event {
        AuditEventType::Enqueued => count_of(s.enqueued, k) < u64::MAX,
        AuditEventType::DeadLettered => count_of(s.failed, k) < u64::MAX,
        AuditEventType::Retry => count_of(s.retried, k) < u64::MAX,
        AuditEventType::ProcessingCompleted => {
            &&& count_of(s.completed, k) < u64::MAX
            &&& match duration {
                Some(d) => latency_of(s.latency_sum, k).0 < u64::MAX
                    && latency_of(s.latency_sum, k).1 + d <= MAX_DURATION_NANOS,
                None => true,
            }
        },
        AuditEventType::ProcessingStarted => true,
    }
}

fn count_or_zero(m: &StrMap<u64>, k: &String) -> (c: u64)
    requires
        m.wf(),
    ensures
        c == count_of(m.view(), k@),
{
    match m.get(k) {
        Some(c) => *c,
        None => 0,
    }
}

fn increment(m: &mut StrMap<u64>, k: &String)
    requires
        old(m).wf(),
        count_of(old(m).view(), k@) < u64::MAX,
    ensures
        final(m).wf(),
        final(m).view() == bump(old(m).view(), k@),
{
    let c = count_or_zero(m, k);
    m.insert(k.clone(), c + 1);
}

impl MetricsAggregator {
    /// The abstract state.
    pub open spec fn state(&self) -> AggregatorState {
        AggregatorState {
            enqueued: self.enqueued.view(),
            completed: self.completed.view(),
            failed: self.failed.view(),
            retried: self.retried.view(),
            latency_sum: self.latency_sum.view(),
        }
    }

    /// All five maps are well formed.
    pub open spec fn wf(&self) -> bool {
        &&& self.enqueued.wf()
        &&& self.completed.wf()
        &&& self.failed.wf()
        &&& self.retried.wf()
        &&& self.latency_sum.wf()
    }

    /// Whether feeding `record` keeps every counter in range.
    pub open spec fn feed_fits(&self, record: &AuditRecord) -> bool {
        spec_feed_fits(self.state(), record.event_type, record.topic@, record.duration)
    }

    /// An aggregator with no counts.
    pub fn new() -> (a: MetricsAggregator)
        ensures
            a.wf(),
            a.state() == (AggregatorState {
                enqueued: Map::empty(),
                completed: Map::empty(),
                failed: Map::empty(),
                retried: Map::empty(),
                latency_sum: Map::empty(),
            }),
    {
        MetricsAggregator {
            enqueued: StrMap::new(),
            completed: StrMap::new(),
            failed: StrMap::new(),
            retried: StrMap::new(),
            latency_sum: StrMap::new(),
        }
    }

    /// Whether `feed(record)` would keep every counter in range.
    pub fn can_feed(&self, record: &AuditRecord) -> (b: bool)
        requires
            self.wf(),
        ensures
            b == self.feed_fits(record),
    {
        let k = &record.topic;
        match record.event_type {
            AuditEventType::Enqueued => count_or_zero(&self.enqueued, k) < u64::MAX,
            AuditEventType::DeadLettered => count_or_zero(&self.failed, k) < u64::MAX,
            AuditEventType::Retry => count_or_zero(&self.retried, k) < u64::MAX,
            AuditEventType::ProcessingCompleted => {
                if count_or_zero(&self.completed, k) == u64::MAX {
                    return false;
                }
                match record.duration {
                    Some(d) => {
                        let (c, s) = match self.latency_sum.get(k) {
                            Some(p) => *p,
                            None => (0u64, 0u128),
                        };
                        c < u64::MAX && s <= MAX_DURATION_NANOS && d <= MAX_DURATION_NANOS - s
                    },
                    None => true,
                }
            },
            AuditEventType::ProcessingStarted => true,
        }
    }

    /// Counts one audit record: enqueued, dead-lettered and retry events
    /// raise their topic's counter by one; a completion raises the
    /// completed counter and, when it carries a duration, adds one
    /// measurement of it to the topic's latency sum; a start changes
    /// nothing.
    pub fn feed(&mut self, record: &AuditRecord)
        requires
            old(self).wf(),
            old(self).feed_fits(record),
        ensures
            final(self).wf(),
            final(self).state() == spec_feed(old(self).state(), record.event_type, record.topic@, record.duration),
    {
        let k = &record.topic;
        match record.event_type {
            AuditEventType::Enqueued => increment(&mut self.enqueued, k),
            AuditEventType::DeadLettered => increment(&mut self.failed, k),
            AuditEventType::Retry => increment(&mut self.retried, k),
            AuditEventType::ProcessingCompleted => {
                increment(&mut self.completed, k);
                match record.duration {
                    Some(d) => {
                        let (c, s) = match self.latency_sum.get(k) {
                            Some(p) => *p,
                            None => (0u64, 0u128),
                        };
                        self.latency_sum.insert(k.clone(), (c + 1, s + d));
                    },
                    None => {},
                }
            },
            AuditEventType::ProcessingStarted => {},
        }
    }

    /// A copy of the current counts.
    pub fn snapshot(&self) -> (a: MetricsAggregator)
        requires
            self.wf(),
        ensures
            a.wf(),
            a.state() == self.state(),
    {
        MetricsAggregator {
            enqueued: self.enqueued.duplicate(),
            completed: self.completed.duplicate(),
            failed: self.failed.duplicate(),
            retried: self.retried.duplicate(),
            latency_sum: self.latency_sum.duplicate(),
        }
    }
}

/// The state after feeding the records `rs` (event, topic, duration) in order.
pub open spec fn feed_all(s: AggregatorState, rs: Seq<(AuditEventType, Seq<char>, Option<Nanos>)>) -> AggregatorState
    decreases rs.len(),
{
    if rs.len() == 0 {
        s
    } else {
        let p = feed_all(s, rs.drop_last());
        spec_feed(p, rs.last().0, rs.last().1, rs.last().2)
    }
}

/// How many of `rs` are of kind `e` for topic `k`.
pub open spec fn occurrences(rs: Seq<(AuditEventType, Seq<char>, Option<Nanos>)>, e: AuditEventType, k: Seq<char>) -> int
    decreases rs.len(),
{
    if rs.len() == 0 {
        0
    } else {
        occurrences(rs.drop_last(), e, k) + (if rs.last().0 == e && rs.last().1 == k { 1int } else { 0int })
    }
}

/// Feeding records never loses one: starting from any counts, each
/// topic's enqueued, completed, failed and retried counters end up raised
/// by exactly the number of records of that kind for that topic (as long
/// as no counter passes `u64::MAX` on the way).
pub proof fn lemma_feed_counts(s: AggregatorState, rs: Seq<(AuditEventType, Seq<char>, Option<Nanos>)>, k: Seq<char>)
    requires
        count_of(s.enqueued, k) + occurrences(rs, AuditEventType::Enqueued, k) <= u64::MAX,
        count_of(s.completed, k) + occurrences(rs, AuditEventType::ProcessingCompleted, k) <= u64::MAX,
        count_of(s.failed, k) + occurrences(rs, AuditEventType::DeadLettered, k) <= u64::MAX,
        count_of(s.retried, k) + occurrences(rs, AuditEventType::Retry, k) <= u64::MAX,
    ensures
        count_of(feed_all(s, rs).enqueued, k) == count_of(s.enqueued, k) + occurrences(rs, AuditEventType::Enqueued, k),
        count_of(feed_all(s, rs).completed, k) == count_of(s.completed, k) + occurrences(rs, AuditEventType::ProcessingCompleted, k),
        count_of(feed_all(s, rs).failed, k) == count_of(s.failed, k) + occurrences(rs, AuditEventType::DeadLettered, k),
        count_of(feed_all(s, rs).retried, k) == count_of(s.retried, k) + occurrences(rs, AuditEventType::Retry, k),
    decreases rs.len(),
{
    if rs.len() > 0 {
        let q = rs.drop_last();
        lemma_occurrences_nonneg(q, AuditEventType::Enqueued, k);
        lemma_occurrences_nonneg(q, AuditEventType::ProcessingCompleted, k);
        lemma_occurrences_nonneg(q, AuditEventType::DeadLettered, k);
        lemma_occurrences_nonneg(q, AuditEventType::Retry, k);
        lemma_feed_counts(s, q, k);
        lemma_count_nonneg(feed_all(s, q));
    }
}

proof fn lemma_occurrences_nonneg(rs: Seq<(AuditEventType, Seq<char>, Option<Nanos>)>, e: AuditEventType, k: Seq<char>)
    ensures
        occurrences(rs, e, k) >= 0,
    decreases rs.len(),
{
    if rs.len() > 0 {
        lemma_occurrences_nonneg(rs.drop_last(), e, k);
    }
}

proof fn lemma_count_nonneg(s: AggregatorState)
    ensures
        forall|k: Seq<char>| count_of(s.enqueued, k) >= 0 && count_of(s.completed, k) >= 0
            && count_of(s.failed, k) >= 0 && count_of(s.retried, k) >= 0,
{
}

/// Counts of other topics are untouched by a record.
pub proof fn lemma_feed_other_topic(s: AggregatorState, e: AuditEventType, k: Seq<char>, d: Option<Nanos>, other: Seq<char>)
    requires
        other != k,
    ensures
        count_of(spec_feed(s, e, k, d).enqueued, other) == count_of(s.enqueued, other),
        count_of(spec_feed(s, e, k, d).completed, other) == count_of(s.completed, other),
        count_of(spec_feed(s, e, k, d).failed, other) == count_of(s.failed, other),
        count_of(spec_feed(s, e, k, d).retried, other) == count_of(s.retried, other),
        latency_of(spec_feed(s, e, k, d).latency_sum, other) == latency_of(s.latency_sum, other),
{
}

/// The count of `k` in `m` raised by one (a new key starts at one).
pub open spec fn one_more(m: Map<Seq<char>, u64>, k: Seq<char>) -> int {
    if m.dom().contains(k) { m[k] + 1 } else { 1 }
}

/// What one record does to the counts: an enqueued, dead-lettered or
/// retry record raises its topic's enqueued, failed or retried count by
/// one; a completion raises the completed count and, when it carries a
/// duration, adds one measurement of it to the topic's latency; nothing
/// else changes. In particular latency is measured on completed messages
/// only: any other record leaves every topic's latency as it was, and a
/// start record changes nothing at all.
pub proof fn lemma_feed_effect(s: AggregatorState, e: AuditEventType, k: Seq<char>, d: Option<Nanos>)
    requires
        spec_feed_fits(s, e, k, d),
    ensures
        ({
            let t = spec_feed(s, e, k, d);
            &&& e != AuditEventType::ProcessingCompleted ==> t.latency_sum == s.latency_sum
            &&& e == AuditEventType::ProcessingStarted ==> t == s
            &&& e == AuditEventType::Enqueued ==> t.enqueued.dom().contains(k) && t.enqueued[k] == one_more(s.enqueued, k)
                && t.enqueued.remove(k) == s.enqueued.remove(k)
            &&& e != AuditEventType::Enqueued ==> t.enqueued == s.enqueued
            &&& e == AuditEventType::DeadLettered ==> t.failed.dom().contains(k) && t.failed[k] == one_more(s.failed, k)
                && t.failed.remove(k) == s.failed.remove(k)
            &&& e != AuditEventType::DeadLettered ==> t.failed == s.failed
            &&& e == AuditEventType::Retry ==> t.retried.dom().contains(k) && t.retried[k] == one_more(s.retried, k)
                && t.retried.remove(k) == s.retried.remove(k)
            &&& e != AuditEventType::Retry ==> t.retried == s.retried
            &&& e == AuditEventType::ProcessingCompleted ==> t.completed.dom().contains(k)
                && t.completed[k] == one_more(s.completed, k) && t.completed.remove(k) == s.completed.remove(k)
            &&& e != AuditEventType::ProcessingCompleted ==> t.completed == s.completed
            &&& (e == AuditEventType::ProcessingCompleted && d is None) ==> t.latency_sum == s.latency_sum
            &&& (e == AuditEventType::ProcessingCompleted && d is Some) ==> {
                &&& t.latency_sum.dom().contains(k)
                &&& t.latency_sum[k].0 == (if s.latency_sum.dom().contains(k) { s.latency_sum[k].0 + 1 } else { 1 })
                &&& t.latency_sum[k].1 == (if s.latency_sum.dom().contains(k) { s.latency_sum[k].1 as int } else { 0 }) + d->0
                &&& t.latency_sum.remove(k) == s.latency_sum.remove(k)
            }
        }),
{
    let t = spec_feed(s, e, k, d);
    assert(t.enqueued.remove(k) =~= s.enqueued.remove(k));
    assert(t.failed.remove(k) =~= s.failed.remove(k));
    assert(t.retried.remove(k) =~= s.retried.remove(k));
    assert(t.completed.remove(k) =~= s.completed.remove(k));
    assert(t.latency_sum.remove(k) =~= s.latency_sum.remove(k));
}

} // verus!
