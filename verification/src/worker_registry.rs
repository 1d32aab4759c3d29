//! The registry of known workers: their topics and last heartbeats.

use vstd::prelude::*;
use crate::error::CoreError;
use crate::strmap::{StrMap, string_views, lemma_filter_step};
use crate::time::{Nanos, Timestamp, MAX_DURATION_NANOS};

verus! {

/// What the registry knows about one worker.
#[derive(Debug)]
pub struct WorkerInfo {
    /// The worker's unique name.
    pub worker_name: String,
    /// The topic it handles.
    pub topic: String,
    /// Its last heartbeat.
    pub last_heartbeat: Timestamp,
}

/// A worker's heartbeat.
#[derive(Debug)]
pub struct WorkerHeartbeatMessage {
    /// The worker.
    pub worker_name: String,
    /// When it was sent.
    pub timestamp: Timestamp,
}

/// A worker announcing itself.
#[derive(Debug)]
pub struct WorkerDiscoveryMessage {
    /// The worker.
    pub worker_name: String,
    /// The topic it handles.
    pub topic: String,
    /// When it started.
    pub started_at: Timestamp,
}

impl WorkerInfo {
    /// A copy of the record.
    pub fn duplicate(&self) -> (r: WorkerInfo)
        ensures
            r == *self,
    {
        WorkerInfo {
            worker_name: self.worker_name.clone(),
            topic: self.topic.clone(),
            last_heartbeat: self.last_heartbeat,
        }
    }
}

/// Instants the system clock can give.
pub open spec fn clock_value(t: int) -> bool {
    -MAX_DURATION_NANOS <= t <= MAX_DURATION_NANOS
}

/// Whether a worker last heard from at `last` is stale at `now` for the
/// given timeout: its heartbeat is older than `timeout`, that is, more
/// than `timeout` has passed since it (a heartbeat later than `now` is
/// not stale).
pub open spec fn is_stale(now: int, last: int, timeout: int) -> bool {
    last <= now && now - last > timeout
}

/// The registry state: workers by name.
pub struct WorkerRegistry {
    workers: StrMap<WorkerInfo>,
}

impl WorkerRegistry {
    /// Workers by name.
    pub closed spec fn view(&self) -> Map<Seq<char>, WorkerInfo> {
        self.workers.view()
    }

    /// Names in registration order.
    pub closed spec fn names(&self) -> Seq<Seq<char>> {
        self.workers.key_order()
    }

    /// Well formed: unique names, the listing order covers the map, and
    /// every heartbeat is a clock value.
    pub closed spec fn wf(&self) -> bool {
        &&& self.workers.wf()
        &&& forall|k: Seq<char>| #[trigger] self.view().dom().contains(k)
            ==> clock_value(self.view()[k].last_heartbeat as int)
    }

    /// What well-formedness gives a caller.
    pub proof fn lemma_wf(&self)
        requires
            self.wf(),
        ensures
            self.names().no_duplicates(),
            self.view().dom() == self.names().to_set(),
            forall|k: Seq<char>| #[trigger] self.view().dom().contains(k)
                ==> clock_value(self.view()[k].last_heartbeat as int),
    {
    }

    /// The stale names at `now`, in registration order.
    pub open spec fn stale_names(&self, now: int, timeout: int) -> Seq<Seq<char>> {
        self.names().filter(|k: Seq<char>| is_stale(now, self.view()[k].last_heartbeat as int, timeout))
    }

    /// An empty registry.
    pub fn new() -> (r: WorkerRegistry)
        ensures
            r.wf(),
            r.view() == Map::<Seq<char>, WorkerInfo>::empty(),
    {
        WorkerRegistry { workers: StrMap::new() }
    }

    /// Adds or replaces the record of `info.worker_name`.
    pub fn register(&mut self, info: WorkerInfo)
        requires
            old(self).wf(),
            clock_value(info.last_heartbeat as int),
        ensures
            final(self).wf(),
            final(self).view() == old(self).view().insert(info.worker_name@, info),
            old(self).view().dom().contains(info.worker_name@) ==> final(self).names() == old(self).names(),
            !old(self).view().dom().contains(info.worker_name@) ==> final(self).names() == old(self).names().push(info.worker_name@),
    {
        proof { self.lemma_wf(); }
        let name = info.worker_name.clone();
        self.workers.insert(name, info);
        assert forall|k: Seq<char>| #[trigger] self.view().dom().contains(k)
            implies clock_value(self.view()[k].last_heartbeat as int) by {
            if k != info.worker_name@ {
                assert(old(self).view().dom().contains(k));
            }
        }
    }

    /// Removes the record of `worker_id`, if any.
    pub fn unregister(&mut self, worker_id: &String)
        requires
            old(self).wf(),
        ensures
            final(self).wf(),
            final(self).view() == old(self).view().remove(worker_id@),
            final(self).names() == crate::strmap::without_key(old(self).names(), worker_id@),
    {
        let _ = self.workers.remove(worker_id);
        assert forall|k: Seq<char>| #[trigger] self.view().dom().contains(k)
            implies clock_value(self.view()[k].last_heartbeat as int) by {
            assert(old(self).view().dom().contains(k));
        }
    }
}

/// The records of `names` in `m`, in that order.
pub open spec fn records_of(m: Map<Seq<char>, WorkerInfo>, names: Seq<Seq<char>>) -> Seq<WorkerInfo> {
    names.map_values(|k: Seq<char>| m[k])
}

impl WorkerRegistry {
    /// Sets the heartbeat of `worker_id` to `now`; fails with
    /// `WorkerNotFound` when no such worker is registered.
    pub fn heartbeat_at(&mut self, worker_id: &String, now: Timestamp) -> (r: Result<(), CoreError>)
        requires
            old(self).wf(),
            clock_value(now as int),
        ensures
            final(self).wf(),
            old(self).view().dom().contains(worker_id@) ==> {
                &&& r is Ok
                &&& final(self).view() == old(self).view().insert(worker_id@,
                    WorkerInfo { last_heartbeat: now, ..old(self).view()[worker_id@] })
            },
            !old(self).view().dom().contains(worker_id@) ==> {
                &&& r == Err::<(), CoreError>(CoreError::WorkerNotFound(*worker_id))
                &&& final(self).view() == old(self).view()
            },
    {
        let updated = match self.workers.get(worker_id) {
            Some(info) => {
                let mut copy = info.duplicate();
                copy.last_heartbeat = now;
                copy
            },
            None => {
                return Err(CoreError::WorkerNotFound(worker_id.clone()));
            },
        };
        self.workers.insert(worker_id.clone(), updated);
        assert forall|k: Seq<char>| #[trigger] self.view().dom().contains(k)
            implies clock_value(self.view()[k].last_heartbeat as int) by {
            if k != worker_id@ {
                assert(old(self).view().dom().contains(k));
            }
        }
        Ok(())
    }

    /// Copies of the records of the workers handling `topic`, in
    /// registration order.
    pub fn get_workers(&self, topic: &String) -> (v: Vec<WorkerInfo>)
        requires
            self.wf(),
        ensures
            v@ == records_of(self.view(), self.names().filter(|k: Seq<char>| self.view()[k].topic@ == topic@)),
    {
        let ghost p = |k: Seq<char>| self.view()[k].topic@ == topic@;
        let mut out: Vec<WorkerInfo> = Vec::new();
        let mut i: usize = 0;
        let n = self.workers.len();
        while i < n
            invariant
                self.wf(),
                n == self.names().len(),
                i <= n,
                p == (|k: Seq<char>| self.view()[k].topic@ == topic@),
                out@ == records_of(self.view(), self.names().take(i as int).filter(p)),
            decreases n - i,
        {
            let info = self.workers.value_at(i);
            proof { lemma_filter_step(self.names(), p, i as int); }
            if info.topic == *topic {
                out.push(info.duplicate());
                assert(out@ =~= records_of(self.view(), self.names().take(i + 1).filter(p)));
            }
            i = i + 1;
        }
        assert(self.names().take(n as int) =~= self.names());
        out
    }

    /// Copies of all records, in registration order.
    pub fn get_all_workers(&self) -> (v: Vec<WorkerInfo>)
        requires
            self.wf(),
        ensures
            v@ == records_of(self.view(), self.names()),
    {
        let mut out: Vec<WorkerInfo> = Vec::new();
        let mut i: usize = 0;
        let n = self.workers.len();
        while i < n
            invariant
                self.wf(),
                n == self.names().len(),
                i <= n,
                out@ == records_of(self.view(), self.names().take(i as int)),
            decreases n - i,
        {
            let info = self.workers.value_at(i);
            out.push(info.duplicate());
            assert(out@ =~= records_of(self.view(), self.names().take(i + 1)));
            i = i + 1;
        }
        assert(self.names().take(n as int) =~= self.names());
        out
    }

    /// Removes every worker that is stale at `now` for `timeout`, and
    /// returns their names in registration order.
    pub fn cleanup_stale_at(&mut self, now: Timestamp, timeout: Nanos) -> (removed: Vec<String>)
        requires
            old(self).wf(),
            clock_value(now as int),
        ensures
            final(self).wf(),
            string_views(removed@) == old(self).stale_names(now as int, timeout as int),
            final(self).view() == old(self).view().restrict(
                old(self).view().dom().filter(|k: Seq<char>| !is_stale(now as int, old(self).view()[k].last_heartbeat as int, timeout as int))),
            final(self).names() == old(self).names().filter(
                |k: Seq<char>| !is_stale(now as int, old(self).view()[k].last_heartbeat as int, timeout as int)),
    {
        let ghost m = self.view();
        let ghost names = self.names();
        let ghost st = |k: Seq<char>| is_stale(now as int, m[k].last_heartbeat as int, timeout as int);
        let ghost keep = |k: Seq<char>| !is_stale(now as int, m[k].last_heartbeat as int, timeout as int);
        let mut kept: StrMap<WorkerInfo> = StrMap::new();
        let mut removed: Vec<String> = Vec::new();
        let mut i: usize = 0;
        let n = self.workers.len();
        while i < n
            invariant
                self.wf(),
                m == self.view(),
                names == self.names(),
                clock_value(now as int),
                n == names.len(),
                i <= n,
                st == (|k: Seq<char>| is_stale(now as int, m[k].last_heartbeat as int, timeout as int)),
                keep == (|k: Seq<char>| !is_stale(now as int, m[k].last_heartbeat as int, timeout as int)),
                kept.wf(),
                string_views(removed@) == names.take(i as int).filter(st),
                kept.key_order() == names.take(i as int).filter(keep),
                kept.view() == m.restrict(names.take(i as int).filter(keep).to_set()),
            decreases n - i,
        {
            let k = self.workers.key_at(i);
            let info = self.workers.value_at(i);
            proof {
                lemma_filter_step(names, st, i as int);
                lemma_filter_step(names, keep, i as int);
                assert(self.workers.wf());
                assert(m.dom().contains(names[i as int]));
                assert(clock_value(info.last_heartbeat as int));
            }
            let last = info.last_heartbeat;
            let stale = if last <= now {
                (now - last) as u128 > timeout
            } else {
                false
            };
            if stale {
                removed.push(k.clone());
                assert(string_views(removed@) =~= names.take(i + 1).filter(st));
            } else {
                proof {
                    assert(!names.take(i as int).contains(names[i as int])) by {
                        if names.take(i as int).contains(names[i as int]) {
                            let j = names.take(i as int).index_of(names[i as int]);
                            assert(names[j] == names[i as int]);
                        }
                    }
                    assert(!names.take(i as int).filter(keep).contains(names[i as int])) by {
                        if names.take(i as int).filter(keep).contains(names[i as int]) {
                            names.take(i as int).lemma_filter_contains_rev(keep, names[i as int]);
                        }
                    }
                }
                kept.insert(k.clone(), info.duplicate());
                assert(kept.view() =~= m.restrict(names.take(i + 1).filter(keep).to_set()));
            }
            i = i + 1;
        }
        assert(names.take(n as int) =~= names);
        assert(m.restrict(names.filter(keep).to_set()) =~= m.restrict(m.dom().filter(keep))) by {
            assert forall|k: Seq<char>| names.filter(keep).contains(k) <==> m.dom().filter(keep).contains(k) by {
                if names.filter(keep).contains(k) {
                    names.lemma_filter_contains_rev(keep, k);
                    assert(names.contains(k));
                }
                if m.dom().filter(keep).contains(k) {
                    assert(names.to_set().contains(k));
                    let j = names.index_of(k);
                    names.lemma_filter_contains(keep, j);
                }
            }
        }
        self.workers = kept;
        assert forall|k: Seq<char>| #[trigger] self.view().dom().contains(k)
            implies clock_value(self.view()[k].last_heartbeat as int) by {
            assert(m.dom().contains(k));
        }
        removed
    }
}

/// The map built by inserting the pairs in order (a later pair with the
/// same name replaces an earlier one).
pub open spec fn pairs_to_map(s: Seq<(String, WorkerInfo)>) -> Map<Seq<char>, WorkerInfo>
    decreases s.len(),
{
    if s.len() == 0 {
        Map::empty()
    } else {
        pairs_to_map(s.drop_last()).insert(s.last().0@, s.last().1)
    }
}

impl WorkerRegistry {
    /// A registry holding the given (name, record) pairs, as a persisted
    /// registry is loaded.
    pub fn load(entries: Vec<(String, WorkerInfo)>) -> (r: WorkerRegistry)
        requires
            forall|i: int| 0 <= i < entries@.len() ==> clock_value(#[trigger] entries@[i].1.last_heartbeat as int),
        ensures
            r.wf(),
            r.view() == pairs_to_map(entries@),
    {
        let mut r = WorkerRegistry::new();
        let ghost all = entries@;
        let n = entries.len();
        let mut i: usize = 0;
        while i < n
            invariant
                r.wf(),
                i <= n,
                n == all.len(),
                all == entries@,
                forall|j: int| 0 <= j < all.len() ==> clock_value(#[trigger] all[j].1.last_heartbeat as int),
                r.view() == pairs_to_map(all.take(i as int)),
            decreases n - i,
        {
            let k = entries[i].0.clone();
            let info = entries[i].1.duplicate();
            assert(clock_value(all[i as int].1.last_heartbeat as int));
            r.workers.insert(k, info);
            assert(all.take(i + 1).drop_last() =~= all.take(i as int));
            assert forall|x: Seq<char>| #[trigger] r.view().dom().contains(x)
                implies clock_value(r.view()[x].last_heartbeat as int) by {
                if x != all[i as int].0@ {
                    assert(pairs_to_map(all.take(i as int)).dom().contains(x));
                }
            }
            i = i + 1;
        }
        assert(all.take(n as int) =~= all);
        r
    }

    /// Copies of the (name, record) pairs, in registration order, as the
    /// registry is persisted.
    pub fn entries(&self) -> (v: Vec<(String, WorkerInfo)>)
        requires
            self.wf(),
        ensures
            v@.len() == self.names().len(),
            forall|i: int| 0 <= i < v@.len() ==> (#[trigger] v@[i]).0@ == self.names()[i]
                && v@[i].1 == self.view()[self.names()[i]],
    {
        let mut out: Vec<(String, WorkerInfo)> = Vec::new();
        let mut i: usize = 0;
        let n = self.workers.len();
        while i < n
            invariant
                self.wf(),
                n == self.names().len(),
                i <= n,
                out@.len() == i,
                forall|j: int| 0 <= j < i ==> (#[trigger] out@[j]).0@ == self.names()[j]
                    && out@[j].1 == self.view()[self.names()[j]],
            decreases n - i,
        {
            let k = self.workers.key_at(i);
            let info = self.workers.value_at(i);
            out.push((k.clone(), info.duplicate()));
            i = i + 1;
        }
        out
    }

    /// Sets the heartbeat of `worker_id` to the current time; fails with
    /// `WorkerNotFound` when no such worker is registered.
    pub fn heartbeat(&mut self, worker_id: &String) -> (r: Result<(), CoreError>)
        requires
            old(self).wf(),
        ensures
            final(self).wf(),
            old(self).view().dom().contains(worker_id@) ==> {
                &&& r is Ok
                &&& exists|now: Timestamp| clock_value(now as int) && final(self).view() == old(self).view().insert(worker_id@,
                    WorkerInfo { last_heartbeat: now, ..old(self).view()[worker_id@] })
            },
            !old(self).view().dom().contains(worker_id@) ==> {
                &&& r == Err::<(), CoreError>(CoreError::WorkerNotFound(*worker_id))
                &&& final(self).view() == old(self).view()
            },
    {
        let now = crate::time::now();
        self.heartbeat_at(worker_id, now)
    }

    /// Removes every worker stale at the current time for `timeout`, and
    /// returns their names in registration order.
    pub fn cleanup_stale(&mut self, timeout: Nanos) -> (removed: Vec<String>)
        requires
            old(self).wf(),
        ensures
            final(self).wf(),
            exists|now: Timestamp| {
                &&& clock_value(now as int)
                &&& string_views(removed@) == old(self).stale_names(now as int, timeout as int)
                &&& final(self).view() == old(self).view().restrict(
                    old(self).view().dom().filter(|k: Seq<char>| !is_stale(now as int, old(self).view()[k].last_heartbeat as int, timeout as int)))
            },
    {
        let now = crate::time::now();
        let removed = self.cleanup_stale_at(now, timeout);
        assert({
            &&& clock_value(now as int)
            &&& string_views(removed@) == old(self).stale_names(now as int, timeout as int)
            &&& self.view() == old(self).view().restrict(
                old(self).view().dom().filter(|k: Seq<char>| !is_stale(now as int, old(self).view()[k].last_heartbeat as int, timeout as int)))
        });
        removed
    }
}

/// Cleaning up partitions the workers: those removed were stale, those
/// kept are not, and nothing else changes.
pub proof fn lemma_cleanup_partition(m: Map<Seq<char>, WorkerInfo>, now: int, timeout: int)
    ensures
        ({
            let keep = m.dom().filter(|k: Seq<char>| !is_stale(now, m[k].last_heartbeat as int, timeout));
            let kept = m.restrict(keep);
            &&& forall|k: Seq<char>| #[trigger] kept.dom().contains(k) ==> !is_stale(now, kept[k].last_heartbeat as int, timeout) && kept[k] == m[k]
            &&& forall|k: Seq<char>| #[trigger] m.dom().contains(k) && !kept.dom().contains(k) ==> is_stale(now, m[k].last_heartbeat as int, timeout)
        }),
{
}

/// Saving and loading a registry gives it back: the map built from the
/// listed (name, record) pairs is the registry's map.
pub proof fn lemma_entries_roundtrip(r: WorkerRegistry, v: Seq<(String, WorkerInfo)>)
    requires
        r.wf(),
        v.len() == r.names().len(),
        forall|i: int| 0 <= i < v.len() ==> (#[trigger] v[i]).0@ == r.names()[i] && v[i].1 == r.view()[r.names()[i]],
    ensures
        pairs_to_map(v) == r.view(),
{
    r.lemma_wf();
    lemma_pairs_prefix(r, v, v.len() as int);
    assert(v.take(v.len() as int) =~= v);
    assert(r.names().take(v.len() as int) =~= r.names());
    assert(r.view().restrict(r.names().to_set()) =~= r.view());
}

proof fn lemma_pairs_prefix(r: WorkerRegistry, v: Seq<(String, WorkerInfo)>, n: int)
    requires
        r.wf(),
        0 <= n <= v.len(),
        v.len() == r.names().len(),
        forall|i: int| 0 <= i < v.len() ==> (#[trigger] v[i]).0@ == r.names()[i] && v[i].1 == r.view()[r.names()[i]],
    ensures
        pairs_to_map(v.take(n)) == r.view().restrict(r.names().take(n).to_set()),
    decreases n,
{
    r.lemma_wf();
    if n == 0 {
        assert(pairs_to_map(v.take(0)) =~= Map::<Seq<char>, WorkerInfo>::empty());
        assert(r.view().restrict(r.names().take(0).to_set()) =~= Map::<Seq<char>, WorkerInfo>::empty());
    } else {
        lemma_pairs_prefix(r, v, n - 1);
        assert(v.take(n).drop_last() =~= v.take(n - 1));
        assert(r.names().contains(r.names()[n - 1]));
        assert forall|k: Seq<char>| r.names().take(n).to_set().contains(k) <==> r.names().take(n - 1).to_set().insert(r.names()[n - 1]).contains(k) by {
            if r.names().take(n).contains(k) {
                let j = r.names().take(n).index_of(k);
                if j < n - 1 {
                    assert(r.names().take(n - 1)[j] == k);
                }
            }
            if r.names().take(n - 1).contains(k) {
                let j = r.names().take(n - 1).index_of(k);
                assert(r.names().take(n)[j] == k);
            }
            if k == r.names()[n - 1] {
                assert(r.names().take(n)[n - 1] == k);
            }
        }
        assert(r.view().restrict(r.names().take(n).to_set()) =~= r.view().restrict(r.names().take(n - 1).to_set()).insert(
            r.names()[n - 1], r.view()[r.names()[n - 1]]));
    }
}

/// Cleanup removes exactly the workers whose heartbeat is older than the
/// timeout: a registered worker last heard from at or before `now`, more
/// than `timeout` earlier, is listed as removed and is gone afterwards;
/// one heard from within the timeout, or whose heartbeat is later than
/// `now`, is not listed and keeps its record.
pub proof fn lemma_cleanup_removes_old_heartbeats(r: WorkerRegistry, now: int, timeout: int, k: Seq<char>)
    requires
        r.wf(),
        r.view().dom().contains(k),
    ensures
        ({
            let l = r.view()[k].last_heartbeat as int;
            let kept = r.view().restrict(
                r.view().dom().filter(|x: Seq<char>| !is_stale(now, r.view()[x].last_heartbeat as int, timeout)));
            &&& (l <= now && now - l > timeout) ==> r.stale_names(now, timeout).contains(k) && !kept.dom().contains(k)
            &&& !(l <= now && now - l > timeout) ==> !r.stale_names(now, timeout).contains(k)
                && kept.dom().contains(k) && kept[k] == r.view()[k]
        }),
{
    r.lemma_wf();
    let st = |x: Seq<char>| is_stale(now, r.view()[x].last_heartbeat as int, timeout);
    assert(r.names().to_set().contains(k));
    let i = r.names().index_of(k);
    if st(k) {
        r.names().lemma_filter_contains(st, i);
    } else {
        if r.stale_names(now, timeout).contains(k) {
            r.names().lemma_filter_contains_rev(st, k);
        }
    }
}

} // verus!
