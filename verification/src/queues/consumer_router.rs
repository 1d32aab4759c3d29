//! The routing tables behind the consumer router: registered topics and
//! their workers, the worker index, the idle pool per topic, the
//! dispatcher lists and the workers' local inboxes.

use vstd::prelude::*;
use crate::error::{CoreError, TopicError};
use crate::strmap::{StrMap, string_views, without_key, lemma_filter_step};

verus! {

/// The list stored under `k`, empty when absent.
pub open spec fn list_at(m: Map<Seq<char>, Vec<String>>, k: Seq<char>) -> Seq<Seq<char>> {
    if m.dom().contains(k) { string_views(m[k]@) } else { Seq::empty() }
}

/// A copy of a list of names.
pub fn copy_names(list: &Vec<String>) -> (r: Vec<String>)
    ensures
        r@ == list@,
{
    let mut out: Vec<String> = Vec::new();
    let mut i: usize = 0;
    while i < list.len()
        invariant
            i <= list@.len(),
            out@ == list@.take(i as int),
        decreases list@.len() - i,
    {
        out.push(list[i].clone());
        assert(out@ =~= list@.take(i + 1));
        i = i + 1;
    }
    assert(list@.take(list@.len() as int) =~= list@);
    out
}

/// `list` without any occurrence of `name`, in order.
pub fn remove_all(list: &Vec<String>, name: &String) -> (r: Vec<String>)
    ensures
        string_views(r@) == without_key(string_views(list@), name@),
{
    let ghost s = string_views(list@);
    let ghost p = |x: Seq<char>| x != name@;
    let mut out: Vec<String> = Vec::new();
    let mut i: usize = 0;
    while i < list.len()
        invariant
            i <= list@.len(),
            s == string_views(list@),
            p == (|x: Seq<char>| x != name@),
            string_views(out@) == s.take(i as int).filter(p),
        decreases list@.len() - i,
    {
        proof { lemma_filter_step(s, p, i as int); }
        if list[i] != *name {
            let ghost before = out@;
            out.push(list[i].clone());
            assert(string_views(out@) =~= string_views(before).push(s[i as int]));
        }
        i = i + 1;
    }
    assert(s.take(list@.len() as int) =~= s);
    out
}

/// Appends `name` to the list under `k`, creating an empty list first
/// when `k` is absent.
pub fn push_name(m: &mut StrMap<Vec<String>>, k: &String, name: String)
    requires
        old(m).wf(),
    ensures
        final(m).wf(),
        final(m).view().dom() == old(m).view().dom().insert(k@),
        list_at(final(m).view(), k@) == list_at(old(m).view(), k@).push(name@),
        forall|x: Seq<char>| x != k@ && #[trigger] old(m).view().dom().contains(x) ==> final(m).view()[x] == old(m).view()[x],
        old(m).key_order().contains(k@) ==> final(m).key_order() == old(m).key_order(),
        !old(m).key_order().contains(k@) ==> final(m).key_order() == old(m).key_order().push(k@),
{
    let mut list = match m.get(k) {
        Some(l) => copy_names(l),
        None => Vec::new(),
    };
    let ghost before = list@;
    list.push(name);
    assert(string_views(list@) =~= list_at(old(m).view(), k@).push(name@)) by {
        assert(string_views(list@) =~= string_views(before).push(list@.last()@));
        if !old(m).view().dom().contains(k@) {
            assert(string_views(before) =~= Seq::<Seq<char>>::empty());
        }
    }
    m.insert(k.clone(), list);
}

/// Takes the first name off the list under `k`, if there is one.
pub fn take_first_name(m: &mut StrMap<Vec<String>>, k: &String) -> (r: Option<String>)
    requires
        old(m).wf(),
    ensures
        final(m).wf(),
        final(m).view().dom() == old(m).view().dom(),
        final(m).key_order() == old(m).key_order(),
        forall|x: Seq<char>| x != k@ && #[trigger] old(m).view().dom().contains(x) ==> final(m).view()[x] == old(m).view()[x],
        list_at(old(m).view(), k@).len() > 0 ==> (r matches Some(n) && n@ == list_at(old(m).view(), k@).first()
            && list_at(final(m).view(), k@) == list_at(old(m).view(), k@).drop_first()),
        list_at(old(m).view(), k@).len() == 0 ==> r is None && final(m).view() == old(m).view(),
{
    let mut list = match m.get(k) {
        Some(l) => copy_names(l),
        None => {
            return None;
        },
    };
    if list.len() == 0 {
        return None;
    }
    let ghost before = list@;
    let n = list.remove(0);
    assert(string_views(list@) =~= string_views(before).drop_first());
    m.insert(k.clone(), list);
    assert(final(m).view().dom() =~= old(m).view().dom());
    Some(n)
}

/// Removes every occurrence of `name` from every list.
pub fn remove_name_everywhere(m: &mut StrMap<Vec<String>>, name: &String)
    requires
        old(m).wf(),
    ensures
        final(m).wf(),
        final(m).view().dom() == old(m).view().dom(),
        final(m).key_order() == old(m).key_order(),
        forall|x: Seq<char>| #[trigger] old(m).view().dom().contains(x)
            ==> list_at(final(m).view(), x) == without_key(list_at(old(m).view(), x), name@),
{
    let ghost keys = m.key_order();
    let n = m.len();
    let mut i: usize = 0;
    while i < n
        invariant
            m.wf(),
            i <= n,
            n == keys.len(),
            keys == old(m).key_order(),
            m.key_order() == keys,
            m.view().dom() == old(m).view().dom(),
            forall|j: int| 0 <= j < i ==> list_at(m.view(), #[trigger] keys[j])
                == without_key(list_at(old(m).view(), keys[j]), name@),
            forall|j: int| i <= j < n ==> m.view()[#[trigger] keys[j]] == old(m).view()[keys[j]],
        decreases n - i,
    {
        let k = m.key_at(i).clone();
        let filtered = remove_all(m.value_at(i), name);
        proof {
            assert(m.view().dom().contains(keys[i as int]));
            assert(keys.no_duplicates());
        }
        m.insert(k, filtered);
        proof {
            assert(keys.contains(keys[i as int]));
            assert forall|j: int| 0 <= j < i + 1 implies list_at(m.view(), #[trigger] keys[j])
                == without_key(list_at(old(m).view(), keys[j]), name@) by {
                if j < i {
                    assert(keys[j] != keys[i as int]);
                }
            }
            assert forall|j: int| i + 1 <= j < n implies m.view()[#[trigger] keys[j]] == old(m).view()[keys[j]] by {
                assert(keys[j] != keys[i as int]);
            }
        }
        i = i + 1;
    }
    assert forall|x: Seq<char>| #[trigger] old(m).view().dom().contains(x)
        implies list_at(m.view(), x) == without_key(list_at(old(m).view(), x), name@) by {
        assert(keys.to_set().contains(x));
        let j = keys.index_of(x);
        assert(keys[j] == x);
    }
}

/// The outcome of one claim for `settle_batch`: handed on (to be
/// acknowledged) exactly when the route decision was not `Nack` (its topic
/// is registered here) and handing the message to the chosen or one-shot
/// worker succeeded (`handed_on`).
pub fn claim_outcome(claim_id: String, decision: &RouteDecision, handed_on: bool) -> (r: (String, bool))
    ensures
        r == outcomes_of(seq![(claim_id, *decision, handed_on)])[0],
        r.0 == claim_id,
        r.1 == (*decision != RouteDecision::Nack && handed_on),
{
    let ok = match decision {
        RouteDecision::Nack => false,
        _ => handed_on,
    };
    (claim_id, ok)
}

/// The claim ids of `s`, in order.
pub open spec fn claim_ids(s: Seq<(String, bool)>) -> Seq<Seq<char>> {
    s.map_values(|o: (String, bool)| o.0@)
}

/// Settles a claimed batch: every claim is acknowledged or given back
/// exactly once, in batch order — acknowledged when its message was handed
/// to a worker (`true`), given back otherwise (its topic is not handled
/// here, or handing it on failed).
pub fn settle_batch(outcomes: &Vec<(String, bool)>) -> (r: (Vec<String>, Vec<String>))
    ensures
        string_views(r.0@) == claim_ids(outcomes@.filter(|o: (String, bool)| o.1)),
        string_views(r.1@) == claim_ids(outcomes@.filter(|o: (String, bool)| !o.1)),
        r.0@.len() + r.1@.len() == outcomes@.len(),
{
    let ghost s = outcomes@;
    let ghost pa = |o: (String, bool)| o.1;
    let ghost pn = |o: (String, bool)| !o.1;
    let mut acks: Vec<String> = Vec::new();
    let mut nacks: Vec<String> = Vec::new();
    let mut i: usize = 0;
    proof {
        assert(s.take(0) =~= Seq::<(String, bool)>::empty());
        assert(s.take(0).filter(pa) =~= Seq::<(String, bool)>::empty());
        assert(s.take(0).filter(pn) =~= Seq::<(String, bool)>::empty());
        assert(string_views(acks@) =~= claim_ids(s.take(0).filter(pa)));
        assert(string_views(nacks@) =~= claim_ids(s.take(0).filter(pn)));
    }
    while i < outcomes.len()
        invariant
            s == outcomes@,
            pa == (|o: (String, bool)| o.1),
            pn == (|o: (String, bool)| !o.1),
            i <= s.len(),
            string_views(acks@) == claim_ids(s.take(i as int).filter(pa)),
            string_views(nacks@) == claim_ids(s.take(i as int).filter(pn)),
            acks@.len() + nacks@.len() == i,
        decreases s.len() - i,
    {
        proof {
            crate::strmap::lemma_filter_step(s, pa, i as int);
            crate::strmap::lemma_filter_step(s, pn, i as int);
        }
        let ok = outcomes[i].1;
        let id = outcomes[i].0.clone();
        assert(id@ == s[i as int].0@);
        if ok {
            let ghost before = acks@;
            acks.push(id);
            proof {
                let f = s.take(i as int).filter(pa);
                assert(pa(s[i as int]));
                assert(s.take(i + 1).filter(pa) == f.push(s[i as int]));
                assert(claim_ids(f.push(s[i as int])) =~= claim_ids(f).push(s[i as int].0@));
                assert(string_views(acks@) =~= string_views(before).push(s[i as int].0@));
            }
        } else {
            let ghost before = nacks@;
            nacks.push(id);
            proof {
                let f = s.take(i as int).filter(pn);
                assert(pn(s[i as int]));
                assert(s.take(i + 1).filter(pn) == f.push(s[i as int]));
                assert(claim_ids(f.push(s[i as int])) =~= claim_ids(f).push(s[i as int].0@));
                assert(string_views(nacks@) =~= string_views(before).push(s[i as int].0@));
            }
        }
        i = i + 1;
    }
    assert(s.take(s.len() as int) =~= s);
    (acks, nacks)
}

/// Whether a claim — its id, route decision and whether handing it on
/// succeeded — is acknowledged.
pub open spec fn acked(c: (String, RouteDecision, bool)) -> bool {
    c.1 != RouteDecision::Nack && c.2
}

/// The outcomes `claim_outcome` gives for the claims `cs`.
pub open spec fn outcomes_of(cs: Seq<(String, RouteDecision, bool)>) -> Seq<(String, bool)> {
    cs.map_values(|c: (String, RouteDecision, bool)| (c.0, acked(c)))
}

/// The claim ids of `cs`, in order.
pub open spec fn ids_of(cs: Seq<(String, RouteDecision, bool)>) -> Seq<Seq<char>> {
    cs.map_values(|c: (String, RouteDecision, bool)| c.0@)
}

/// One claimed batch is settled claim by claim: with each claim's outcome
/// from `claim_outcome`, `settle_batch` acknowledges exactly the claims
/// whose topic is registered here (the route is not `Nack`) and whose
/// message was handed on, and gives back exactly the others, each once
/// and in batch order.
pub proof fn lemma_batch_settled(cs: Seq<(String, RouteDecision, bool)>)
    ensures
        claim_ids(outcomes_of(cs).filter(|o: (String, bool)| o.1)) == ids_of(cs.filter(|c: (String, RouteDecision, bool)| acked(c))),
        claim_ids(outcomes_of(cs).filter(|o: (String, bool)| !o.1)) == ids_of(cs.filter(|c: (String, RouteDecision, bool)| !acked(c))),
    decreases cs.len(),
{
    reveal(Seq::filter);
    if cs.len() > 0 {
        let p = cs.drop_last();
        let c = cs.last();
        lemma_batch_settled(p);
        assert(outcomes_of(cs).drop_last() =~= outcomes_of(p));
        assert(outcomes_of(cs).last() == (c.0, acked(c)));
        let fa = cs.filter(|c: (String, RouteDecision, bool)| acked(c));
        let fn_ = cs.filter(|c: (String, RouteDecision, bool)| !acked(c));
        let pa = p.filter(|c: (String, RouteDecision, bool)| acked(c));
        let pn = p.filter(|c: (String, RouteDecision, bool)| !acked(c));
        let oa = outcomes_of(p).filter(|o: (String, bool)| o.1);
        let on = outcomes_of(p).filter(|o: (String, bool)| !o.1);
        if acked(c) {
            assert(fa == pa.push(c));
            assert(fn_ == pn);
            assert(outcomes_of(cs).filter(|o: (String, bool)| o.1) == oa.push((c.0, true)));
            assert(outcomes_of(cs).filter(|o: (String, bool)| !o.1) == on);
            assert(claim_ids(oa.push((c.0, true))) =~= claim_ids(oa).push(c.0@));
            assert(ids_of(pa.push(c)) =~= ids_of(pa).push(c.0@));
        } else {
            assert(fa == pa);
            assert(fn_ == pn.push(c));
            assert(outcomes_of(cs).filter(|o: (String, bool)| o.1) == oa);
            assert(outcomes_of(cs).filter(|o: (String, bool)| !o.1) == on.push((c.0, false)));
            assert(claim_ids(on.push((c.0, false))) =~= claim_ids(on).push(c.0@));
            assert(ids_of(pn.push(c)) =~= ids_of(pn).push(c.0@));
        }
    } else {
        assert(outcomes_of(cs).filter(|o: (String, bool)| o.1) =~= Seq::<(String, bool)>::empty());
        assert(outcomes_of(cs).filter(|o: (String, bool)| !o.1) =~= Seq::<(String, bool)>::empty());
        assert(cs.filter(|c: (String, RouteDecision, bool)| acked(c)) =~= Seq::<(String, RouteDecision, bool)>::empty());
        assert(cs.filter(|c: (String, RouteDecision, bool)| !acked(c)) =~= Seq::<(String, RouteDecision, bool)>::empty());
        assert(claim_ids(Seq::<(String, bool)>::empty()) =~= Seq::<Seq<char>>::empty());
        assert(ids_of(Seq::<(String, RouteDecision, bool)>::empty()) =~= Seq::<Seq<char>>::empty());
    }
}

/// Messages claimed per batch when no batch size is configured.
pub const DEFAULT_BATCH_SIZE: usize = 64;

/// Where a claimed message goes.
#[derive(Debug, PartialEq, Eq)]
pub enum RouteDecision {
    /// Its topic is not handled here: give the claim back.
    Nack,
    /// Hand it to the named worker.
    Dispatch(String),
    /// No worker is available: process it with a one-shot worker.
    Ephemeral,
}

/// The consumer router's tables, generic in what they store per topic
/// (`P`: producer, consumer factory and handler; `Q`: a pipeline
/// template), per worker (`W`: the worker and its task) and per inbox
/// (`I`: the sending side of a worker's local inbox).
pub struct RouterTables<P, Q, W, I> {
    topic_entries: StrMap<P>,
    topic_pipelines: StrMap<Q>,
    topic_workers: StrMap<Vec<String>>,
    worker_index: StrMap<W>,
    idle_workers: StrMap<Vec<String>>,
    dispatch_workers: StrMap<Vec<String>>,
    dispatch_enabled: StrMap<bool>,
    local_inboxes: StrMap<I>,
    dispatch_generation: u64,
    batch_size: usize,
}

impl<P, Q, W, I> RouterTables<P, Q, W, I> {
    /// Registered topics and what they store.
    pub closed spec fn entries(&self) -> Map<Seq<char>, P> { self.topic_entries.view() }
    /// Pipeline templates set for topics.
    pub closed spec fn pipelines(&self) -> Map<Seq<char>, Q> { self.topic_pipelines.view() }
    /// Workers created for each registered topic.
    pub closed spec fn topic_workers(&self) -> Map<Seq<char>, Vec<String>> { self.topic_workers.view() }
    /// The worker index.
    pub closed spec fn workers(&self) -> Map<Seq<char>, W> { self.worker_index.view() }
    /// Worker names in the order they entered the index.
    pub closed spec fn worker_order(&self) -> Seq<Seq<char>> { self.worker_index.key_order() }
    /// Idle workers per topic, most recently idle last.
    pub closed spec fn idle(&self) -> Map<Seq<char>, Vec<String>> { self.idle_workers.view() }
    /// Workers served by each topic's dispatcher.
    pub closed spec fn dispatch(&self) -> Map<Seq<char>, Vec<String>> { self.dispatch_workers.view() }
    /// Topics whose dispatcher has been started.
    pub closed spec fn enabled(&self) -> Map<Seq<char>, bool> { self.dispatch_enabled.view() }
    /// Local inboxes by worker name.
    pub closed spec fn inboxes(&self) -> Map<Seq<char>, I> { self.local_inboxes.view() }
    /// Counter bumped whenever the set of dispatch targets changes.
    pub closed spec fn generation(&self) -> u64 { self.dispatch_generation }
    /// Messages claimed per batch.
    pub closed spec fn batch(&self) -> usize { self.batch_size }

    /// The worker index and inboxes agree with `o`'s.
    pub open spec fn same_workers(&self, o: Self) -> bool {
        &&& self.workers() == o.workers()
        &&& self.worker_order() == o.worker_order()
        &&& self.inboxes() == o.inboxes()
    }

    /// The idle pools, dispatcher tables, generation and batch size agree with `o`'s.
    pub open spec fn same_pools(&self, o: Self) -> bool {
        &&& self.idle() == o.idle()
        &&& self.dispatch() == o.dispatch()
        &&& self.enabled() == o.enabled()
        &&& self.generation() == o.generation()
        &&& self.batch() == o.batch()
    }

    /// The topic tables agree with `o`'s.
    pub open spec fn same_topics(&self, o: Self) -> bool {
        &&& self.entries() == o.entries()
        &&& self.pipelines() == o.pipelines()
        &&& self.topic_workers() == o.topic_workers()
    }

    /// The tables agree with one another.
    pub closed spec fn wf(&self) -> bool {
        &&& self.topic_entries.wf()
        &&& self.topic_pipelines.wf()
        &&& self.topic_workers.wf()
        &&& self.worker_index.wf()
        &&& self.idle_workers.wf()
        &&& self.dispatch_workers.wf()
        &&& self.dispatch_enabled.wf()
        &&& self.local_inboxes.wf()
        &&& self.topic_workers.view().dom() == self.topic_entries.view().dom()
        &&& self.topic_pipelines.view().dom().subset_of(self.topic_entries.view().dom())
    }

    /// Empty tables claiming `batch_size` messages per batch (64 when not given).
    pub fn new(batch_size: Option<usize>) -> (t: Self)
        ensures
            t.wf(),
            t.entries() == Map::<Seq<char>, P>::empty(),
            t.pipelines() == Map::<Seq<char>, Q>::empty(),
            t.topic_workers() == Map::<Seq<char>, Vec<String>>::empty(),
            t.workers() == Map::<Seq<char>, W>::empty(),
            t.idle() == Map::<Seq<char>, Vec<String>>::empty(),
            t.dispatch() == Map::<Seq<char>, Vec<String>>::empty(),
            t.enabled() == Map::<Seq<char>, bool>::empty(),
            t.inboxes() == Map::<Seq<char>, I>::empty(),
            t.generation() == 0,
            t.batch() == (match batch_size { Some(b) => b, None => DEFAULT_BATCH_SIZE }),
    {
        let t = RouterTables {
            topic_entries: StrMap::new(),
            topic_pipelines: StrMap::new(),
            topic_workers: StrMap::new(),
            worker_index: StrMap::new(),
            idle_workers: StrMap::new(),
            dispatch_workers: StrMap::new(),
            dispatch_enabled: StrMap::new(),
            local_inboxes: StrMap::new(),
            dispatch_generation: 0,
            batch_size: match batch_size {
                Some(b) => b,
                None => DEFAULT_BATCH_SIZE,
            },
        };
        t
    }

    /// Messages claimed per batch.
    pub fn batch_size(&self) -> (b: usize)
        ensures
            b == self.batch(),
    {
        self.batch_size
    }

    /// The generation counter.
    pub fn dispatch_generation(&self) -> (g: u64)
        ensures
            g == self.generation(),
    {
        self.dispatch_generation
    }

    /// Whether `topic` is registered.
    pub fn contains_topic(&self, topic: &String) -> (b: bool)
        requires
            self.wf(),
        ensures
            b == self.entries().dom().contains(topic@),
    {
        self.topic_entries.contains_key(topic)
    }

    /// Fails with `Topic(AlreadyExists)` when `topic` is registered.
    pub fn check_register(&self, topic: &String) -> (r: Result<(), CoreError>)
        requires
            self.wf(),
        ensures
            self.entries().dom().contains(topic@) ==> r == Err::<(), CoreError>(CoreError::Topic(TopicError::AlreadyExists(*topic))),
            !self.entries().dom().contains(topic@) ==> r is Ok,
    {
        if self.topic_entries.contains_key(topic) {
            Err(CoreError::Topic(TopicError::AlreadyExists(topic.clone())))
        } else {
            Ok(())
        }
    }

    /// Registers `topic` with what it stores and no workers; fails with
    /// `Topic(AlreadyExists)`, changing nothing, when it is registered.
    pub fn register(&mut self, topic: &String, entry: P) -> (r: Result<(), CoreError>)
        requires
            old(self).wf(),
        ensures
            final(self).wf(),
            old(self).entries().dom().contains(topic@) ==> {
                &&& r == Err::<(), CoreError>(CoreError::Topic(TopicError::AlreadyExists(*topic)))
                &&& *final(self) == *old(self)
            },
            !old(self).entries().dom().contains(topic@) ==> {
                &&& r is Ok
                &&& final(self).entries() == old(self).entries().insert(topic@, entry)
                &&& final(self).topic_workers().dom() == old(self).topic_workers().dom().insert(topic@)
                &&& list_at(final(self).topic_workers(), topic@) == Seq::<Seq<char>>::empty()
                &&& forall|x: Seq<char>| x != topic@ && #[trigger] old(self).topic_workers().dom().contains(x)
                    ==> final(self).topic_workers()[x] == old(self).topic_workers()[x]
                &&& final(self).pipelines() == old(self).pipelines()
                &&& final(self).same_workers(*old(self))
                &&& final(self).same_pools(*old(self))
            },
    {
        if self.topic_entries.contains_key(topic) {
            return Err(CoreError::Topic(TopicError::AlreadyExists(topic.clone())));
        }
        self.topic_entries.insert(topic.clone(), entry);
        let empty: Vec<String> = Vec::new();
        assert(string_views(empty@) =~= Seq::<Seq<char>>::empty());
        self.topic_workers.insert(topic.clone(), empty);
        Ok(())
    }

    /// Stores the pipeline template of `topic`; fails with
    /// `Topic(NotFound)`, changing nothing, when it is not registered.
    pub fn set_pipeline(&mut self, topic: &String, pipeline: Q) -> (r: Result<(), CoreError>)
        requires
            old(self).wf(),
        ensures
            final(self).wf(),
            old(self).entries().dom().contains(topic@) ==> {
                &&& r is Ok
                &&& final(self).pipelines() == old(self).pipelines().insert(topic@, pipeline)
                &&& final(self).entries() == old(self).entries()
                &&& final(self).topic_workers() == old(self).topic_workers()
                &&& final(self).same_workers(*old(self))
                &&& final(self).same_pools(*old(self))
            },
            !old(self).entries().dom().contains(topic@) ==> {
                &&& r == Err::<(), CoreError>(CoreError::Topic(TopicError::NotFound(*topic)))
                &&& *final(self) == *old(self)
            },
    {
        if !self.topic_entries.contains_key(topic) {
            return Err(CoreError::Topic(TopicError::NotFound(topic.clone())));
        }
        self.topic_pipelines.insert(topic.clone(), pipeline);
        Ok(())
    }

    /// What `topic` stores, if registered.
    pub fn get_entry(&self, topic: &String) -> (r: Option<&P>)
        requires
            self.wf(),
        ensures
            match r {
                Some(e) => self.entries().dom().contains(topic@) && *e == self.entries()[topic@],
                None => !self.entries().dom().contains(topic@),
            },
    {
        self.topic_entries.get(topic)
    }

    /// What `topic` stores, for creating one of its workers; fails with
    /// `Topic(NotFound)` when the topic is not registered.
    pub fn topic_entry(&self, topic: &String) -> (r: Result<&P, CoreError>)
        requires
            self.wf(),
        ensures
            self.entries().dom().contains(topic@) ==> (r matches Ok(e) && *e == self.entries()[topic@]),
            !self.entries().dom().contains(topic@)
                ==> r == Err::<&P, CoreError>(CoreError::Topic(TopicError::NotFound(*topic))),
    {
        match self.topic_entries.get(topic) {
            Some(e) => Ok(e),
            None => Err(CoreError::Topic(TopicError::NotFound(topic.clone()))),
        }
    }

    /// The pipeline template of `topic`, if one was set.
    pub fn get_pipeline(&self, topic: &String) -> (r: Option<&Q>)
        requires
            self.wf(),
        ensures
            match r {
                Some(q) => self.pipelines().dom().contains(topic@) && *q == self.pipelines()[topic@],
                None => !self.pipelines().dom().contains(topic@),
            },
    {
        self.topic_pipelines.get(topic)
    }

    /// Puts `worker_name` at the end of `topic`'s idle pool.
    pub fn set_idle(&mut self, topic: &String, worker_name: String)
        requires
            old(self).wf(),
        ensures
            final(self).wf(),
            final(self).idle().dom() == old(self).idle().dom().insert(topic@),
            list_at(final(self).idle(), topic@) == list_at(old(self).idle(), topic@).push(worker_name@),
            forall|x: Seq<char>| x != topic@ && #[trigger] old(self).idle().dom().contains(x)
                ==> final(self).idle()[x] == old(self).idle()[x],
            final(self).same_topics(*old(self)),
            final(self).same_workers(*old(self)),
            final(self).dispatch() == old(self).dispatch(),
            final(self).enabled() == old(self).enabled(),
            final(self).generation() == old(self).generation(),
            final(self).batch() == old(self).batch(),
    {
        push_name(&mut self.idle_workers, topic, worker_name);
    }

    /// Takes every occurrence of `worker_name` out of `topic`'s idle pool.
    pub fn set_working(&mut self, topic: &String, worker_name: &String)
        requires
            old(self).wf(),
        ensures
            final(self).wf(),
            final(self).idle().dom() == old(self).idle().dom(),
            list_at(final(self).idle(), topic@) == without_key(list_at(old(self).idle(), topic@), worker_name@),
            forall|x: Seq<char>| x != topic@ && #[trigger] old(self).idle().dom().contains(x)
                ==> final(self).idle()[x] == old(self).idle()[x],
            final(self).same_topics(*old(self)),
            final(self).same_workers(*old(self)),
            final(self).dispatch() == old(self).dispatch(),
            final(self).enabled() == old(self).enabled(),
            final(self).generation() == old(self).generation(),
            final(self).batch() == old(self).batch(),
    {
        let filtered = match self.idle_workers.get(topic) {
            Some(list) => remove_all(list, worker_name),
            None => {
                proof {
                    crate::strmap::lemma_filter_all(Seq::<Seq<char>>::empty(), worker_name@);
                }
                return;
            },
        };
        self.idle_workers.insert(topic.clone(), filtered);
    }

    /// Takes the first idle worker off `topic`'s pool and returns its name
    /// when it is still in the worker index.
    pub fn select_local_idle_worker(&mut self, topic: &String) -> (r: Option<String>)
        requires
            old(self).wf(),
        ensures
            final(self).wf(),
            final(self).idle().dom() == old(self).idle().dom(),
            forall|x: Seq<char>| x != topic@ && #[trigger] old(self).idle().dom().contains(x)
                ==> final(self).idle()[x] == old(self).idle()[x],
            list_at(old(self).idle(), topic@).len() > 0 ==> {
                let name = list_at(old(self).idle(), topic@).first();
                &&& list_at(final(self).idle(), topic@) == list_at(old(self).idle(), topic@).drop_first()
                &&& old(self).workers().dom().contains(name) ==> (r matches Some(n) && n@ == name)
                &&& !old(self).workers().dom().contains(name) ==> r is None
            },
            list_at(old(self).idle(), topic@).len() == 0 ==> r is None && final(self).idle() == old(self).idle(),
            final(self).same_topics(*old(self)),
            final(self).same_workers(*old(self)),
            final(self).dispatch() == old(self).dispatch(),
            final(self).enabled() == old(self).enabled(),
            final(self).generation() == old(self).generation(),
            final(self).batch() == old(self).batch(),
    {
        match take_first_name(&mut self.idle_workers, topic) {
            Some(name) => {
                if self.worker_index.contains_key(&name) {
                    Some(name)
                } else {
                    None
                }
            },
            None => None,
        }
    }

    /// Decides where a claimed message of `topic`, addressed to
    /// `to_worker`, goes: back to the queue when the topic is not
    /// registered; to the addressed worker when it is in the index; for an
    /// unaddressed message, to the first idle worker of the topic
    /// (taken off the pool); otherwise to a one-shot worker.
    pub fn route(&mut self, topic: &String, to_worker: &Option<String>) -> (r: RouteDecision)
        requires
            old(self).wf(),
        ensures
            final(self).wf(),
            final(self).same_topics(*old(self)),
            final(self).same_workers(*old(self)),
            final(self).dispatch() == old(self).dispatch(),
            final(self).enabled() == old(self).enabled(),
            final(self).generation() == old(self).generation(),
            final(self).batch() == old(self).batch(),
            !old(self).entries().dom().contains(topic@) ==> r == RouteDecision::Nack && final(self).idle() == old(self).idle(),
            old(self).entries().dom().contains(topic@) ==> match to_worker {
                Some(t) => final(self).idle() == old(self).idle() && (
                    if old(self).workers().dom().contains(t@) {
                        r matches RouteDecision::Dispatch(n) && n@ == t@
                    } else {
                        r == RouteDecision::Ephemeral
                    }),
                None => {
                    let pool = list_at(old(self).idle(), topic@);
                    &&& final(self).idle().dom() == old(self).idle().dom()
                    &&& forall|x: Seq<char>| x != topic@ && #[trigger] old(self).idle().dom().contains(x)
                        ==> final(self).idle()[x] == old(self).idle()[x]
                    &&& pool.len() > 0 ==> list_at(final(self).idle(), topic@) == pool.drop_first()
                    &&& pool.len() == 0 ==> final(self).idle() == old(self).idle()
                    &&& (pool.len() > 0 && old(self).workers().dom().contains(pool.first()))
                        ==> (r matches RouteDecision::Dispatch(n) && n@ == pool.first())
                    &&& !(pool.len() > 0 && old(self).workers().dom().contains(pool.first()))
                        ==> r == RouteDecision::Ephemeral
                },
            },
    {
        if !self.topic_entries.contains_key(topic) {
            return RouteDecision::Nack;
        }
        match to_worker {
            Some(t) => {
                if self.worker_index.contains_key(t) {
                    RouteDecision::Dispatch(t.clone())
                } else {
                    RouteDecision::Ephemeral
                }
            },
            None => match self.select_local_idle_worker(topic) {
                Some(n) => RouteDecision::Dispatch(n),
                None => RouteDecision::Ephemeral,
            },
        }
    }

    /// Adds the worker to the index, then, when `topic` is registered,
    /// lists it among the topic's workers and its dispatcher's targets
    /// and bumps the generation; otherwise fails with `Topic(NotFound)`
    /// (the worker stays in the index).
    pub fn register_worker(&mut self, topic: &String, worker_name: String, handle: W) -> (r: Result<(), CoreError>)
        requires
            old(self).wf(),
        ensures
            final(self).wf(),
            final(self).workers() == old(self).workers().insert(worker_name@, handle),
            old(self).workers().dom().contains(worker_name@) ==> final(self).worker_order() == old(self).worker_order(),
            !old(self).workers().dom().contains(worker_name@)
                ==> final(self).worker_order() == old(self).worker_order().push(worker_name@),
            final(self).inboxes() == old(self).inboxes(),
            final(self).entries() == old(self).entries(),
            final(self).pipelines() == old(self).pipelines(),
            final(self).idle() == old(self).idle(),
            final(self).enabled() == old(self).enabled(),
            final(self).batch() == old(self).batch(),
            old(self).entries().dom().contains(topic@) ==> {
                &&& r is Ok
                &&& final(self).topic_workers().dom() == old(self).topic_workers().dom()
                &&& list_at(final(self).topic_workers(), topic@) == list_at(old(self).topic_workers(), topic@).push(worker_name@)
                &&& forall|x: Seq<char>| x != topic@ && #[trigger] old(self).topic_workers().dom().contains(x)
                    ==> final(self).topic_workers()[x] == old(self).topic_workers()[x]
                &&& final(self).dispatch().dom() == old(self).dispatch().dom().insert(topic@)
                &&& list_at(final(self).dispatch(), topic@) == list_at(old(self).dispatch(), topic@).push(worker_name@)
                &&& forall|x: Seq<char>| x != topic@ && #[trigger] old(self).dispatch().dom().contains(x)
                    ==> final(self).dispatch()[x] == old(self).dispatch()[x]
                &&& final(self).generation() == next_generation(old(self).generation())
            },
            !old(self).entries().dom().contains(topic@) ==> {
                &&& r == Err::<(), CoreError>(CoreError::Topic(TopicError::NotFound(*topic)))
                &&& final(self).topic_workers() == old(self).topic_workers()
                &&& final(self).dispatch() == old(self).dispatch()
                &&& final(self).generation() == old(self).generation()
            },
    {
        let name_copy = worker_name.clone();
        self.worker_index.insert(worker_name, handle);
        if self.topic_entries.contains_key(topic) {
            push_name(&mut self.topic_workers, topic, name_copy.clone());
            push_name(&mut self.dispatch_workers, topic, name_copy);
            self.dispatch_generation = self.dispatch_generation.wrapping_add(1);
            Ok(())
        } else {
            Err(CoreError::Topic(TopicError::NotFound(topic.clone())))
        }
    }

    /// Marks `topic`'s dispatcher as started and says whether it had to be
    /// started now (it was not started before).
    pub fn claim_dispatcher(&mut self, topic: &String) -> (start: bool)
        requires
            old(self).wf(),
        ensures
            final(self).wf(),
            start == !(old(self).enabled().dom().contains(topic@) && old(self).enabled()[topic@]),
            start ==> final(self).enabled() == old(self).enabled().insert(topic@, true),
            !start ==> final(self).enabled() == old(self).enabled(),
            final(self).same_topics(*old(self)),
            final(self).same_workers(*old(self)),
            final(self).idle() == old(self).idle(),
            final(self).dispatch() == old(self).dispatch(),
            final(self).generation() == old(self).generation(),
            final(self).batch() == old(self).batch(),
    {
        let started = match self.dispatch_enabled.get(topic) {
            Some(b) => *b,
            None => false,
        };
        if started {
            false
        } else {
            self.dispatch_enabled.insert(topic.clone(), true);
            true
        }
    }

    /// Capacity of a worker's local inbox: four batches.
    pub fn inbox_capacity(&self) -> (c: usize)
        requires
            self.batch() <= usize::MAX / 4,
        ensures
            c == self.batch() * 4,
    {
        self.batch_size * 4
    }

    /// Stores the local inbox of `worker_name`.
    pub fn add_inbox(&mut self, worker_name: String, inbox: I)
        requires
            old(self).wf(),
        ensures
            final(self).wf(),
            final(self).inboxes() == old(self).inboxes().insert(worker_name@, inbox),
            final(self).workers() == old(self).workers(),
            final(self).worker_order() == old(self).worker_order(),
            final(self).same_topics(*old(self)),
            final(self).same_pools(*old(self)),
    {
        self.local_inboxes.insert(worker_name, inbox);
    }

    /// The local inbox of `worker_name`, if any.
    pub fn inbox_of(&self, worker_name: &String) -> (r: Option<&I>)
        requires
            self.wf(),
        ensures
            match r {
                Some(i) => self.inboxes().dom().contains(worker_name@) && *i == self.inboxes()[worker_name@],
                None => !self.inboxes().dom().contains(worker_name@),
            },
    {
        self.local_inboxes.get(worker_name)
    }

    /// The worker named `worker_name`; fails with `WorkerNotFound`.
    pub fn get_worker(&self, worker_name: &String) -> (r: Result<&W, CoreError>)
        requires
            self.wf(),
        ensures
            self.workers().dom().contains(worker_name@) ==> (r matches Ok(w) && *w == self.workers()[worker_name@]),
            !self.workers().dom().contains(worker_name@) ==> r == Err::<&W, CoreError>(CoreError::WorkerNotFound(*worker_name)),
    {
        match self.worker_index.get(worker_name) {
            Some(w) => Ok(w),
            None => Err(CoreError::WorkerNotFound(worker_name.clone())),
        }
    }

    /// Names of all indexed workers, in the order they entered the index.
    pub fn get_all_workers(&self) -> (v: Vec<String>)
        requires
            self.wf(),
        ensures
            string_views(v@) == self.worker_order(),
    {
        let mut out: Vec<String> = Vec::new();
        let mut i: usize = 0;
        let n = self.worker_index.len();
        while i < n
            invariant
                self.wf(),
                n == self.worker_order().len(),
                i <= n,
                out@.len() == i,
                forall|j: int| 0 <= j < i ==> (#[trigger] out@[j])@ == self.worker_order()[j],
            decreases n - i,
        {
            out.push(self.worker_index.key_at(i).clone());
            i = i + 1;
        }
        assert(string_views(out@) =~= self.worker_order());
        out
    }

    /// Names from `list` that pass `keep`, in order.
    fn names_with(&self, list: &Vec<String>, in_index: bool) -> (v: Vec<String>)
        requires
            self.wf(),
        ensures
            in_index ==> string_views(v@) == string_views(list@).filter(|k: Seq<char>| self.workers().dom().contains(k)),
            !in_index ==> string_views(v@) == string_views(list@).filter(|k: Seq<char>| self.inboxes().dom().contains(k)),
    {
        let ghost s = string_views(list@);
        let ghost p = if in_index {
            |k: Seq<char>| self.workers().dom().contains(k)
        } else {
            |k: Seq<char>| self.inboxes().dom().contains(k)
        };
        let mut out: Vec<String> = Vec::new();
        let mut i: usize = 0;
        while i < list.len()
            invariant
                self.wf(),
                i <= list@.len(),
                s == string_views(list@),
                p == (if in_index {
                    |k: Seq<char>| self.workers().dom().contains(k)
                } else {
                    |k: Seq<char>| self.inboxes().dom().contains(k)
                }),
                string_views(out@) == s.take(i as int).filter(p),
            decreases list@.len() - i,
        {
            proof { lemma_filter_step(s, p, i as int); }
            let present = if in_index {
                self.worker_index.contains_key(&list[i])
            } else {
                self.local_inboxes.contains_key(&list[i])
            };
            if present {
                let ghost before = out@;
                out.push(list[i].clone());
                assert(string_views(out@) =~= string_views(before).push(s[i as int]));
            }
            i = i + 1;
        }
        assert(s.take(list@.len() as int) =~= s);
        out
    }

    /// Names of `topic`'s workers that are still in the index, in the
    /// order they were created (none for an unknown topic).
    pub fn get_workers(&self, topic: &String) -> (v: Vec<String>)
        requires
            self.wf(),
        ensures
            string_views(v@) == list_at(self.topic_workers(), topic@).filter(|k: Seq<char>| self.workers().dom().contains(k)),
    {
        match self.topic_workers.get(topic) {
            Some(list) => self.names_with(list, true),
            None => {
                let v: Vec<String> = Vec::new();
                proof {
                    reveal(Seq::filter);
                    assert(string_views(v@) =~= Seq::<Seq<char>>::empty());
                }
                v
            },
        }
    }

    /// Names of the targets of `topic`'s dispatcher that have a local
    /// inbox, in order.
    pub fn dispatch_targets(&self, topic: &String) -> (v: Vec<String>)
        requires
            self.wf(),
        ensures
            string_views(v@) == list_at(self.dispatch(), topic@).filter(|k: Seq<char>| self.inboxes().dom().contains(k)),
    {
        match self.dispatch_workers.get(topic) {
            Some(list) => self.names_with(list, false),
            None => {
                let v: Vec<String> = Vec::new();
                proof {
                    reveal(Seq::filter);
                    assert(string_views(v@) =~= Seq::<Seq<char>>::empty());
                }
                v
            },
        }
    }
}

/// Removing the workers named in `names` in turn from `m`: the map left,
/// the handles removed (in order) and the names that were removed.
pub open spec fn sweep<W>(m: Map<Seq<char>, W>, names: Seq<Seq<char>>) -> (Map<Seq<char>, W>, Seq<W>, Seq<Seq<char>>)
    decreases names.len(),
{
    if names.len() == 0 {
        (m, Seq::empty(), Seq::empty())
    } else {
        let (m1, hs, rs) = sweep(m, names.drop_last());
        let n = names.last();
        if m1.dom().contains(n) {
            (m1.remove(n), hs.push(m1[n]), rs.push(n))
        } else {
            (m1, hs, rs)
        }
    }
}

/// Keeping the names outside an empty list keeps them all.
proof fn lemma_filter_none_removed(s: Seq<Seq<char>>)
    ensures
        s.filter(|k: Seq<char>| !Seq::<Seq<char>>::empty().contains(k)) == s,
    decreases s.len(),
{
    reveal(Seq::filter);
    if s.len() > 0 {
        lemma_filter_none_removed(s.drop_last());
        assert(!Seq::<Seq<char>>::empty().contains(s.last()));
        assert(s =~= s.drop_last().push(s.last()));
    } else {
        assert(s.filter(|k: Seq<char>| !Seq::<Seq<char>>::empty().contains(k)) =~= s);
    }
}

/// Keeping the names outside `rs` and then dropping `x` keeps the names
/// outside `rs` with `x` added.
proof fn lemma_without_key_after_filter(s: Seq<Seq<char>>, rs: Seq<Seq<char>>, x: Seq<char>)
    ensures
        without_key(s.filter(|k: Seq<char>| !rs.contains(k)), x) == s.filter(|k: Seq<char>| !rs.push(x).contains(k)),
    decreases s.len(),
{
    let p1 = |k: Seq<char>| !rs.contains(k);
    let p2 = |k: Seq<char>| !rs.push(x).contains(k);
    reveal(Seq::filter);
    if s.len() == 0 {
        assert(without_key(s.filter(p1), x) =~= s.filter(p2));
    } else {
        let init = s.drop_last();
        let y = s.last();
        lemma_without_key_after_filter(init, rs, x);
        assert(rs.push(x).contains(y) <==> rs.contains(y) || y == x) by {
            if rs.push(x).contains(y) {
                let j = rs.push(x).index_of(y);
                if j < rs.len() {
                    assert(rs[j] == y);
                }
            }
            if rs.contains(y) {
                let j = rs.index_of(y);
                assert(rs.push(x)[j] == y);
            }
            if y == x {
                assert(rs.push(x)[rs.len() as int] == y);
            }
        }
        let a = init.filter(p1);
        if p1(y) {
            assert(s.filter(p1) == a.push(y));
            assert(a.push(y).drop_last() =~= a);
            assert(without_key(a.push(y), x) == (if y != x { without_key(a, x).push(y) } else { without_key(a, x) }));
        } else {
            assert(s.filter(p1) == a);
        }
    }
}

impl<P, Q, W, I> RouterTables<P, Q, W, I> {
    /// Removes the worker `worker_name`: from the index, its inbox, every
    /// topic's worker list and every dispatcher's targets, bumping the
    /// generation, and returns its handle; fails with `WorkerNotFound`,
    /// changing nothing, when it is not indexed. Idle pools are left as
    /// they are.
    pub fn del_worker(&mut self, worker_name: &String) -> (r: Result<W, CoreError>)
        requires
            old(self).wf(),
        ensures
            final(self).wf(),
            old(self).workers().dom().contains(worker_name@) ==> {
                &&& r matches Ok(h) && h == old(self).workers()[worker_name@]
                &&& final(self).workers() == old(self).workers().remove(worker_name@)
                &&& final(self).worker_order() == without_key(old(self).worker_order(), worker_name@)
                &&& final(self).inboxes() == old(self).inboxes().remove(worker_name@)
                &&& final(self).topic_workers().dom() == old(self).topic_workers().dom()
                &&& forall|x: Seq<char>| #[trigger] old(self).topic_workers().dom().contains(x)
                    ==> list_at(final(self).topic_workers(), x) == without_key(list_at(old(self).topic_workers(), x), worker_name@)
                &&& final(self).dispatch().dom() == old(self).dispatch().dom()
                &&& forall|x: Seq<char>| #[trigger] old(self).dispatch().dom().contains(x)
                    ==> list_at(final(self).dispatch(), x) == without_key(list_at(old(self).dispatch(), x), worker_name@)
                &&& final(self).generation() == next_generation(old(self).generation())
                &&& final(self).entries() == old(self).entries()
                &&& final(self).pipelines() == old(self).pipelines()
                &&& final(self).idle() == old(self).idle()
                &&& final(self).enabled() == old(self).enabled()
                &&& final(self).batch() == old(self).batch()
            },
            !old(self).workers().dom().contains(worker_name@) ==> {
                &&& r == Err::<W, CoreError>(CoreError::WorkerNotFound(*worker_name))
                &&& *final(self) == *old(self)
            },
    {
        if !self.worker_index.contains_key(worker_name) {
            return Err(CoreError::WorkerNotFound(worker_name.clone()));
        }
        let removed = self.worker_index.remove(worker_name);
        match removed {
            Some(h) => {
                let _ = self.local_inboxes.remove(worker_name);
                remove_name_everywhere(&mut self.topic_workers, worker_name);
                remove_name_everywhere(&mut self.dispatch_workers, worker_name);
                self.dispatch_generation = self.dispatch_generation.wrapping_add(1);
                Ok(h)
            },
            None => {
                assert(false);
                Err(CoreError::WorkerNotFound(worker_name.clone()))
            },
        }
    }

    /// Removes `topic` with all its workers: each listed worker still in
    /// the index leaves it (and its inbox goes) and its handle is
    /// returned; the topic's registration, pipeline, dispatcher targets and
    /// dispatcher flag go; the generation is bumped. Fails with
    /// `Topic(NotFound)`, changing nothing, when `topic` is not registered.
    pub fn del_workers(&mut self, topic: &String) -> (r: Result<Vec<W>, CoreError>)
        requires
            old(self).wf(),
        ensures
            final(self).wf(),
            !old(self).entries().dom().contains(topic@) ==> {
                &&& r == Err::<Vec<W>, CoreError>(CoreError::Topic(TopicError::NotFound(*topic)))
                &&& *final(self) == *old(self)
            },
            old(self).entries().dom().contains(topic@) ==> (r matches Ok(handles) && {
                let (m, hs, rs) = sweep(old(self).workers(), list_at(old(self).topic_workers(), topic@));
                &&& final(self).workers() == m
                &&& final(self).worker_order() == old(self).worker_order().filter(|k: Seq<char>| !rs.contains(k))
                &&& handles@ == hs
                &&& final(self).inboxes() == old(self).inboxes().remove_keys(rs.to_set())
                &&& final(self).entries() == old(self).entries().remove(topic@)
                &&& final(self).pipelines() == old(self).pipelines().remove(topic@)
                &&& final(self).topic_workers() == old(self).topic_workers().remove(topic@)
                &&& final(self).dispatch() == old(self).dispatch().remove(topic@)
                &&& final(self).enabled() == old(self).enabled().remove(topic@)
                &&& final(self).idle() == old(self).idle()
                &&& final(self).generation() == next_generation(old(self).generation())
                &&& final(self).batch() == old(self).batch()
            }),
    {
        if !self.topic_entries.contains_key(topic) {
            return Err(CoreError::Topic(TopicError::NotFound(topic.clone())));
        }
        let names: Vec<String> = match self.topic_workers.get(topic) {
            Some(list) => copy_names(list),
            None => Vec::new(),
        };
        let ghost ns = string_views(names@);
        assert(ns =~= list_at(old(self).topic_workers(), topic@));
        proof {
            lemma_filter_none_removed(self.worker_order());
            assert(ns.take(0) =~= Seq::<Seq<char>>::empty());
        }
        let mut handles: Vec<W> = Vec::new();
        let mut i: usize = 0;
        while i < names.len()
            invariant
                self.wf(),
                i <= names@.len(),
                ns == string_views(names@),
                ({
                    let (m, hs, rs) = sweep(old(self).workers(), ns.take(i as int));
                    &&& self.workers() == m
                    &&& self.worker_order() == old(self).worker_order().filter(|k: Seq<char>| !rs.contains(k))
                    &&& handles@ == hs
                    &&& self.inboxes() == old(self).inboxes().remove_keys(rs.to_set())
                }),
                self.same_topics(*old(self)),
                self.same_pools(*old(self)),
            decreases names@.len() - i,
        {
            proof {
                assert(ns.take(i + 1).drop_last() =~= ns.take(i as int));
                assert(ns.take(i + 1).last() == names@[i as int]@);
            }
            let ghost before_inboxes = self.inboxes();
            match self.worker_index.remove(&names[i]) {
                Some(h) => {
                    handles.push(h);
                    let _ = self.local_inboxes.remove(&names[i]);
                    proof {
                        let (m0, hs0, rs0) = sweep(old(self).workers(), ns.take(i as int));
                        let pushed = rs0.push(names@[i as int]@);
                        assert forall|x: Seq<char>| pushed.contains(x) <==> rs0.contains(x) || x == names@[i as int]@ by {
                            if pushed.contains(x) {
                                let j = pushed.index_of(x);
                                if j < rs0.len() {
                                    assert(rs0[j] == x);
                                }
                            }
                            if rs0.contains(x) {
                                let j = rs0.index_of(x);
                                assert(pushed[j] == x);
                            }
                            if x == names@[i as int]@ {
                                assert(pushed[rs0.len() as int] == x);
                            }
                        }
                        assert(pushed.to_set() =~= rs0.to_set().insert(names@[i as int]@));
                        assert(self.inboxes() =~= old(self).inboxes().remove_keys(rs0.push(names@[i as int]@).to_set()));
                        lemma_without_key_after_filter(old(self).worker_order(), rs0, names@[i as int]@);
                    }
                },
                None => {},
            }
            i = i + 1;
        }
        proof {
            assert(ns.take(names@.len() as int) =~= ns);
        }
        let _ = self.topic_entries.remove(topic);
        let _ = self.topic_pipelines.remove(topic);
        let _ = self.topic_workers.remove(topic);
        let _ = self.dispatch_workers.remove(topic);
        let _ = self.dispatch_enabled.remove(topic);
        self.dispatch_generation = self.dispatch_generation.wrapping_add(1);
        proof {
            assert(self.topic_pipelines.view().dom().subset_of(self.topic_entries.view().dom()));
        }
        Ok(handles)
    }
}

/// The generation after one bump (wrapping at `u64::MAX`).
pub open spec fn next_generation(g: u64) -> u64 {
    if g == u64::MAX { 0 } else { (g + 1) as u64 }
}

/// The round-robin state of a topic dispatcher: the next position and
/// the generation its cached target list was read at.
#[derive(Debug, Clone, Copy, PartialEq, Eq, Structural)]
pub struct DispatchCursor {
    /// Position of the next target (taken modulo the number of targets).
    pub cursor: usize,
    /// Generation of the cached targets (`u64::MAX` before the first read).
    pub seen_generation: u64,
}

impl DispatchCursor {
    /// A dispatcher that has read no targets yet.
    pub fn new() -> (c: DispatchCursor)
        ensures
            c.cursor == 0,
            c.seen_generation == u64::MAX,
    {
        DispatchCursor { cursor: 0, seen_generation: u64::MAX }
    }

    /// Whether the cached targets must be read again: the generation
    /// moved on, or the cache is empty.
    pub fn needs_refresh(&self, current_generation: u64, cached: usize) -> (b: bool)
        ensures
            b == (current_generation != self.seen_generation || cached == 0),
    {
        current_generation != self.seen_generation || cached == 0
    }

    /// Records that `targets` targets were read at `current_generation`,
    /// bringing the cursor into range when there are any.
    pub fn refreshed(&mut self, current_generation: u64, targets: usize)
        ensures
            final(self).seen_generation == current_generation,
            targets > 0 ==> final(self).cursor == old(self).cursor % targets,
            targets == 0 ==> final(self).cursor == old(self).cursor,
    {
        self.seen_generation = current_generation;
        if targets > 0 {
            self.cursor = self.cursor % targets;
        }
    }

    /// The target position for the next message, advancing the cursor
    /// (wrapping at `usize::MAX`).
    pub fn next_index(&mut self, targets: usize) -> (i: usize)
        requires
            targets > 0,
        ensures
            i == old(self).cursor % targets,
            i < targets,
            final(self).cursor == (if old(self).cursor == usize::MAX { 0 } else { (old(self).cursor + 1) as usize }),
            final(self).seen_generation == old(self).seen_generation,
    {
        let i = self.cursor % targets;
        self.cursor = self.cursor.wrapping_add(1);
        i
    }

    /// Forces a re-read of the targets after a delivery failed.
    pub fn invalidate(&mut self)
        ensures
            final(self).seen_generation == u64::MAX,
            final(self).cursor == old(self).cursor,
    {
        self.seen_generation = u64::MAX;
    }
}

/// Taking a worker's name out of a list leaves no trace of it and keeps
/// every other name.
pub proof fn lemma_without_key(s: Seq<Seq<char>>, k: Seq<char>)
    ensures
        !without_key(s, k).contains(k),
        forall|x: Seq<char>| x != k ==> (s.contains(x) <==> #[trigger] without_key(s, k).contains(x)),
    decreases s.len(),
{
    reveal(Seq::filter);
    if s.len() > 0 {
        let p = s.drop_last();
        lemma_without_key(p, k);
        let w = without_key(s, k);
        let wp = without_key(p, k);
        assert(w == (if s.last() != k { wp.push(s.last()) } else { wp }));
        if w.contains(k) {
            let j = w.index_of(k);
            if j < wp.len() {
                assert(wp[j] == k);
            }
        }
        assert forall|x: Seq<char>| x != k implies (s.contains(x) <==> #[trigger] w.contains(x)) by {
            if s.contains(x) {
                let j = s.index_of(x);
                if j < p.len() {
                    assert(p[j] == x);
                    assert(wp.contains(x));
                    let i = wp.index_of(x);
                    assert(w[i] == x);
                } else {
                    assert(w[w.len() - 1] == x);
                }
            }
            if w.contains(x) {
                let j = w.index_of(x);
                if j < wp.len() {
                    assert(wp[j] == x);
                    assert(wp.contains(x));
                    assert(p.contains(x));
                    let i = p.index_of(x);
                    assert(s[i] == x);
                } else {
                    assert(s[s.len() - 1] == x);
                }
            }
        }
    } else {
        assert(without_key(s, k) =~= s);
    }
}

/// Round robin is fair: from any cursor that does not wrap, the next
/// `n` messages go to `n` different targets, so every target gets one.
pub proof fn lemma_round_robin_fair(c: int, n: int, i: int, j: int)
    requires
        c >= 0,
        n > 0,
        0 <= i < j < n,
    ensures
        (c + i) % n != (c + j) % n,
{
    vstd::arithmetic::div_mod::lemma_fundamental_div_mod(c + i, n);
    vstd::arithmetic::div_mod::lemma_fundamental_div_mod(c + j, n);
    let qi = (c + i) / n;
    let qj = (c + j) / n;
    if (c + i) % n == (c + j) % n {
        assert(j - i == n * (qj - qi)) by (nonlinear_arith)
            requires
                c + i == n * qi + (c + i) % n,
                c + j == n * qj + (c + j) % n,
                (c + i) % n == (c + j) % n;
        assert(false) by (nonlinear_arith)
            requires
                j - i == n * (qj - qi),
                0 < j - i < n,
                n > 0;
    }
}

} // verus!
