//! A map keyed by strings, kept as an association list with unique keys.
//! Its abstract value is a `Map` from character sequences; the order in
//! which keys were first inserted is kept as well, for listings.

use vstd::prelude::*;

verus! {

/// An insertion-ordered map from `String` keys to values.
pub struct StrMap<V> {
    entries: Vec<(String, V)>,
}

/// The character sequences of a list of strings.
pub open spec fn string_views(v: Seq<String>) -> Seq<Seq<char>> {
    v.map_values(|t: String| t@)
}

/// The character sequences of the keys of an entry list, in order.
pub open spec fn keys_of<V>(s: Seq<(String, V)>) -> Seq<Seq<char>> {
    s.map_values(|e: (String, V)| e.0@)
}

/// The values of an entry list, in order.
pub open spec fn values_of<V>(s: Seq<(String, V)>) -> Seq<V> {
    s.map_values(|e: (String, V)| e.1)
}

/// A key sequence with every occurrence of `k` taken out.
pub open spec fn without_key(s: Seq<Seq<char>>, k: Seq<char>) -> Seq<Seq<char>> {
    s.filter(|x: Seq<char>| x != k)
}

/// The map an entry list with unique keys stands for.
pub open spec fn map_of<V>(s: Seq<(String, V)>) -> Map<Seq<char>, V> {
    Map::new(
        |k: Seq<char>| keys_of(s).contains(k),
        |k: Seq<char>| values_of(s)[keys_of(s).index_of(k)],
    )
}

impl<V> StrMap<V> {
    /// Keys in the order they were first inserted.
    pub closed spec fn key_order(&self) -> Seq<Seq<char>> {
        keys_of(self.entries@)
    }

    /// Values in the order of `key_order`.
    pub closed spec fn value_order(&self) -> Seq<V> {
        values_of(self.entries@)
    }

    /// The abstract map.
    pub closed spec fn view(&self) -> Map<Seq<char>, V> {
        map_of(self.entries@)
    }

    /// Keys are unique, so the map and the two orders agree.
    pub open spec fn wf(&self) -> bool {
        &&& self.key_order().no_duplicates()
        &&& self.key_order().len() == self.value_order().len()
        &&& self.view().dom() == self.key_order().to_set()
        &&& forall|i: int|
            0 <= i < self.key_order().len() ==> #[trigger] self.view()[self.key_order()[i]]
                == self.value_order()[i]
    }

    proof fn lemma_wf(&self)
        requires
            keys_of(self.entries@).no_duplicates(),
        ensures
            self.wf(),
    {
        let ks = keys_of(self.entries@);
        assert(self.view().dom() =~= ks.to_set());
        assert forall|i: int| 0 <= i < ks.len() implies #[trigger] self.view()[ks[i]]
            == self.value_order()[i] by {
            assert(ks.contains(ks[i]));
            let j = ks.index_of(ks[i]);
            assert(0 <= j < ks.len() && ks[j] == ks[i]);
            assert(j == i);
        }
    }

    /// An empty map.
    pub fn new() -> (m: Self)
        ensures
            m.wf(),
            m.view() == Map::<Seq<char>, V>::empty(),
            m.key_order() == Seq::<Seq<char>>::empty(),
    {
        let m = StrMap { entries: Vec::new() };
        proof {
            m.lemma_wf();
            assert(m.view() =~= Map::<Seq<char>, V>::empty());
            assert(m.key_order() =~= Seq::<Seq<char>>::empty());
        }
        m
    }

    /// Number of keys.
    pub fn len(&self) -> (n: usize)
        requires
            self.wf(),
        ensures
            n == self.key_order().len(),
    {
        self.entries.len()
    }

    /// Position of `key` in `key_order`, if present.
    pub fn position(&self, key: &String) -> (r: Option<usize>)
        requires
            self.wf(),
        ensures
            match r {
                Some(i) => i < self.key_order().len() && self.key_order()[i as int] == key@,
                None => !self.key_order().contains(key@),
            },
    {
        let mut i: usize = 0;
        while i < self.entries.len()
            invariant
                i <= self.entries@.len(),
                forall|j: int| 0 <= j < i ==> self.key_order()[j] != key@,
            decreases self.entries@.len() - i,
        {
            if self.entries[i].0 == *key {
                return Some(i);
            }
            i = i + 1;
        }
        None
    }

    /// Whether `key` is present.
    pub fn contains_key(&self, key: &String) -> (b: bool)
        requires
            self.wf(),
        ensures
            b == self.view().dom().contains(key@),
    {
        self.position(key).is_some()
    }

    /// The value stored under `key`.
    pub fn get(&self, key: &String) -> (r: Option<&V>)
        requires
            self.wf(),
        ensures
            match r {
                Some(v) => self.view().dom().contains(key@) && *v == self.view()[key@],
                None => !self.view().dom().contains(key@),
            },
    {
        match self.position(key) {
            Some(i) => Some(&self.entries[i].1),
            None => None,
        }
    }

    /// The key at position `i` of `key_order`.
    pub fn key_at(&self, i: usize) -> (k: &String)
        requires
            self.wf(),
            i < self.key_order().len(),
        ensures
            k@ == self.key_order()[i as int],
    {
        &self.entries[i].0
    }

    /// The value at position `i` of `value_order`.
    pub fn value_at(&self, i: usize) -> (v: &V)
        requires
            self.wf(),
            i < self.key_order().len(),
        ensures
            *v == self.value_order()[i as int],
            *v == self.view()[self.key_order()[i as int]],
    {
        &self.entries[i].1
    }

    /// Stores `value` under `key`, replacing any earlier value. A new key
    /// goes to the end of `key_order`; an existing key keeps its place.
    pub fn insert(&mut self, key: String, value: V)
        requires
            old(self).wf(),
        ensures
            final(self).wf(),
            final(self).view() == old(self).view().insert(key@, value),
            old(self).key_order().contains(key@) ==> final(self).key_order() == old(self).key_order(),
            !old(self).key_order().contains(key@) ==> final(self).key_order() == old(self).key_order().push(key@),
    {
        let ghost k = key@;
        match self.position(&key) {
            Some(i) => {
                self.entries.set(i, (key, value));
                proof {
                    assert(keys_of(self.entries@) =~= keys_of(old(self).entries@));
                    self.lemma_wf();
                    assert(self.view() =~= old(self).view().insert(k, value)) by {
                        let ks = keys_of(self.entries@);
                        assert forall|x: Seq<char>| #[trigger] self.view().dom().contains(x)
                            implies self.view()[x] == old(self).view().insert(k, value)[x] by {
                            let j = ks.index_of(x);
                            assert(ks.contains(x));
                            assert(old(self).view()[old(self).key_order()[j]] == old(self).value_order()[j]);
                        }
                    }
                }
            },
            None => {
                self.entries.push((key, value));
                proof {
                    let ks = keys_of(self.entries@);
                    assert(ks =~= old(self).key_order().push(k));
                    assert(ks.no_duplicates()) by {
                        assert forall|a: int, b: int| 0 <= a < ks.len() && 0 <= b < ks.len() && a != b
                            implies ks[a] != ks[b] by {
                            if a < ks.len() - 1 && b < ks.len() - 1 {
                            } else if a == ks.len() - 1 {
                                assert(old(self).key_order()[b] == ks[b]);
                            } else {
                                assert(old(self).key_order()[a] == ks[a]);
                            }
                        }
                    }
                    self.lemma_wf();
                    assert(self.view() =~= old(self).view().insert(k, value)) by {
                        assert forall|x: Seq<char>| #[trigger] self.view().dom().contains(x)
                            implies self.view()[x] == old(self).view().insert(k, value)[x] by {
                            let j = ks.index_of(x);
                            assert(ks.contains(x));
                            if x != k {
                                assert(j < ks.len() - 1);
                                assert(old(self).view()[old(self).key_order()[j]] == old(self).value_order()[j]);
                            } else {
                                assert(ks[ks.len() - 1] == k);
                            }
                        }
                        assert forall|x: Seq<char>| #[trigger] old(self).view().insert(k, value).dom().contains(x)
                            implies self.view().dom().contains(x) by {
                            if x != k {
                                let j = old(self).key_order().index_of(x);
                                assert(ks[j] == x);
                            } else {
                                assert(ks[ks.len() - 1] == k);
                            }
                        }
                    }
                }
            },
        }
    }

    /// Removes `key`, returning its value if it was present. The other
    /// keys keep their relative order.
    pub fn remove(&mut self, key: &String) -> (r: Option<V>)
        requires
            old(self).wf(),
        ensures
            final(self).wf(),
            final(self).view() == old(self).view().remove(key@),
            final(self).key_order() == without_key(old(self).key_order(), key@),
            match r {
                Some(v) => old(self).view().dom().contains(key@) && v == old(self).view()[key@],
                None => !old(self).view().dom().contains(key@) && final(self).key_order() == old(self).key_order(),
            },
    {
        let ghost k = key@;
        match self.position(key) {
            Some(i) => {
                let (_, v) = self.entries.remove(i);
                proof {
                    let ok = old(self).key_order();
                    let ks = keys_of(self.entries@);
                    assert(ks =~= ok.subrange(0, i as int) + ok.subrange(i + 1, ok.len() as int));
                    assert(ks.no_duplicates());
                    self.lemma_wf();
                    lemma_filter_skip_unique(ok, i as int, k);
                    assert(self.view() =~= old(self).view().remove(k)) by {
                        assert forall|x: Seq<char>| #[trigger] self.view().dom().contains(x)
                            implies self.view()[x] == old(self).view().remove(k)[x] by {
                            let j = ks.index_of(x);
                            assert(ks.contains(x));
                            if j < i {
                                assert(old(self).view()[ok[j]] == old(self).value_order()[j]);
                            } else {
                                assert(old(self).view()[ok[j + 1]] == old(self).value_order()[j + 1]);
                            }
                        }
                        assert forall|x: Seq<char>| #[trigger] old(self).view().remove(k).dom().contains(x)
                            implies self.view().dom().contains(x) by {
                            let j = ok.index_of(x);
                            if j < i {
                                assert(ks[j] == x);
                            } else {
                                assert(ks[j - 1] == x);
                            }
                        }
                    }
                    assert(old(self).view()[ok[i as int]] == old(self).value_order()[i as int]);
                }
                Some(v)
            },
            None => {
                proof {
                    let ok = old(self).key_order();
                    assert(without_key(ok, k) =~= ok) by {
                        lemma_filter_all(ok, k);
                    }
                    assert(self.view() =~= old(self).view().remove(k));
                }
                None
            },
        }
    }
}

impl<V: Copy> StrMap<V> {
    /// A copy of the map with the same keys, values and order.
    pub fn duplicate(&self) -> (r: Self)
        requires
            self.wf(),
        ensures
            r.wf(),
            r.view() == self.view(),
            r.key_order() == self.key_order(),
            r.value_order() == self.value_order(),
    {
        let mut entries: Vec<(String, V)> = Vec::new();
        let mut i: usize = 0;
        while i < self.entries.len()
            invariant
                i <= self.entries@.len(),
                entries@ == self.entries@.subrange(0, i as int),
            decreases self.entries@.len() - i,
        {
            let k = self.entries[i].0.clone();
            let v = self.entries[i].1;
            entries.push((k, v));
            assert(entries@ =~= self.entries@.subrange(0, i + 1));
            i = i + 1;
        }
        assert(entries@ =~= self.entries@);
        StrMap { entries }
    }
}

/// One more element of `s` through `filter`.
pub proof fn lemma_filter_step<A>(s: Seq<A>, p: spec_fn(A) -> bool, i: int)
    requires
        0 <= i < s.len(),
    ensures
        s.take(i + 1).filter(p) == (if p(s[i]) { s.take(i).filter(p).push(s[i]) } else { s.take(i).filter(p) }),
{
    assert(s.take(i + 1).drop_last() =~= s.take(i));
    reveal(Seq::filter);
}

/// Filtering out a value that occurs nowhere leaves the sequence unchanged.
pub proof fn lemma_filter_all(s: Seq<Seq<char>>, k: Seq<char>)
    requires
        !s.contains(k),
    ensures
        without_key(s, k) == s,
    decreases s.len(),
{
    reveal(Seq::filter);
    if s.len() > 0 {
        let p = s.drop_last();
        assert(!p.contains(k)) by {
            if p.contains(k) {
                let j = p.index_of(k);
                assert(s[j] == k);
            }
        }
        lemma_filter_all(p, k);
        assert(s[s.len() - 1] != k);
        assert(without_key(s, k) =~= without_key(p, k).push(s.last()));
        assert(s =~= p.push(s.last()));
    } else {
        assert(without_key(s, k) =~= s);
    }
}

/// Filtering out the value found only at position `i` removes exactly that position.
proof fn lemma_filter_skip_unique(s: Seq<Seq<char>>, i: int, k: Seq<char>)
    requires
        0 <= i < s.len(),
        s[i] == k,
        s.no_duplicates(),
    ensures
        without_key(s, k) == s.subrange(0, i) + s.subrange(i + 1, s.len() as int),
    decreases s.len(),
{
    reveal(Seq::filter);
    if i == s.len() - 1 {
        let p = s.drop_last();
        assert(!p.contains(k)) by {
            if p.contains(k) {
                let j = p.index_of(k);
                assert(s[j] == s[i]);
            }
        }
        lemma_filter_all(p, k);
        assert(without_key(s, k) =~= without_key(p, k));
        assert(s.subrange(0, i) + s.subrange(i + 1, s.len() as int) =~= p);
    } else {
        let p = s.drop_last();
        assert(p.no_duplicates());
        lemma_filter_skip_unique(p, i, k);
        assert(s.last() != k);
        assert(without_key(s, k) =~= without_key(p, k).push(s.last()));
        assert(s.subrange(0, i) + s.subrange(i + 1, s.len() as int)
            =~= (p.subrange(0, i) + p.subrange(i + 1, p.len() as int)).push(s.last()));
    }
}

} // verus!
