//! A finite map kept as a vector of entries with pairwise distinct keys.
//! Keys are compared by their views; entries keep their insertion order,
//! and a removal moves the last entry into the freed slot.
use vstd::prelude::*;

verus! {

/// Keys whose executable comparison agrees with equality of their views.
pub trait ViewKey: View + Sized {
    fn same_key(&self, other: &Self) -> (r: bool)
        ensures
            r == (self@ == other@),
    ;

    fn copy_key(&self) -> (r: Self)
        ensures
            r@ == self@,
    ;
}

impl ViewKey for String {
    fn same_key(&self, other: &Self) -> (r: bool) {
        *self == *other
    }

    fn copy_key(&self) -> (r: Self) {
        self.clone()
    }
}

impl ViewKey for u64 {
    fn same_key(&self, other: &Self) -> (r: bool) {
        *self == *other
    }

    fn copy_key(&self) -> (r: Self) {
        *self
    }
}

pub struct AssocMap<K, V> {
    pub entries: Vec<(K, V)>,
}

impl<K: ViewKey, V> AssocMap<K, V> {
    /// No two entries share a key.
    pub open spec fn wf(&self) -> bool {
        forall|i: int, j: int|
            0 <= i < j < self.entries@.len() ==> #[trigger] self.entries@[i].0@
                != #[trigger] self.entries@[j].0@
    }

    pub open spec fn has(&self, k: K::V) -> bool {
        exists|i: int| 0 <= i < self.entries@.len() && #[trigger] self.entries@[i].0@ == k
    }

    pub open spec fn index_of(&self, k: K::V) -> int {
        choose|i: int| 0 <= i < self.entries@.len() && #[trigger] self.entries@[i].0@ == k
    }

    /// The entries as a mathematical map from key views to values.
    pub open spec fn map(&self) -> Map<K::V, V> {
        Map::new(|k: K::V| self.has(k), |k: K::V| self.entries@[self.index_of(k)].1)
    }

    /// The key views, in entry order.
    pub open spec fn key_seq(&self) -> Seq<K::V> {
        self.entries@.map_values(|e: (K, V)| e.0@)
    }

    pub proof fn lemma_lookup(&self, i: int)
        requires
            self.wf(),
            0 <= i < self.entries@.len(),
        ensures
            self.map().dom().contains(self.entries@[i].0@),
            self.map()[self.entries@[i].0@] == self.entries@[i].1,
            self.index_of(self.entries@[i].0@) == i,
    {
        let k = self.entries@[i].0@;
        assert(self.has(k));
        let j = self.index_of(k);
        if j != i {
            if j < i {
                assert(self.entries@[j].0@ != self.entries@[i].0@);
            } else {
                assert(self.entries@[i].0@ != self.entries@[j].0@);
            }
        }
    }

    pub fn new() -> (r: Self)
        ensures
            r.wf(),
            r.map() == Map::<K::V, V>::empty(),
            r.entries@.len() == 0,
    {
        let r = AssocMap { entries: Vec::new() };
        assert(r.map() =~= Map::<K::V, V>::empty());
        r
    }

    /// Position of the entry with key `k`, if any.
    pub fn find(&self, k: &K) -> (r: Option<usize>)
        ensures
            match r {
                Some(i) => i < self.entries@.len() && self.entries@[i as int].0@ == k@,
                None => !self.has(k@) && !self.map().dom().contains(k@),
            },
    {
        let mut i: usize = 0;
        while i < self.entries.len()
            invariant
                i <= self.entries@.len(),
                forall|j: int| 0 <= j < i ==> #[trigger] self.entries@[j].0@ != k@,
            decreases self.entries@.len() - i,
        {
            if self.entries[i].0.same_key(k) {
                return Some(i);
            }
            i += 1;
        }
        None
    }

    pub fn contains_key(&self, k: &K) -> (r: bool)
        requires
            self.wf(),
        ensures
            r == self.map().dom().contains(k@),
    {
        match self.find(k) {
            Some(i) => {
                proof {
                    self.lemma_lookup(i as int);
                }
                true
            },
            None => false,
        }
    }

    pub fn get(&self, k: &K) -> (r: Option<&V>)
        requires
            self.wf(),
        ensures
            match r {
                Some(v) => self.map().dom().contains(k@) && *v == self.map()[k@],
                None => !self.map().dom().contains(k@),
            },
    {
        match self.find(k) {
            Some(i) => {
                proof {
                    self.lemma_lookup(i as int);
                }
                Some(&self.entries[i].1)
            },
            None => None,
        }
    }

    /// Sets the value under `k`, keeping the entry's position when the key is present
    /// and appending a new entry otherwise.
    pub fn insert(&mut self, k: K, v: V)
        requires
            old(self).wf(),
        ensures
            final(self).wf(),
            final(self).map() == old(self).map().insert(k@, v),
            old(self).has(k@) ==> final(self).key_seq() == old(self).key_seq(),
            !old(self).has(k@) ==> final(self).key_seq() == old(self).key_seq().push(k@),
            old(self).has(k@) ==> final(self).entries@ == old(self).entries@.update(
                old(self).index_of(k@),
                (k, v),
            ),
            !old(self).has(k@) ==> final(self).entries@ == old(self).entries@.push((k, v)),
    {
        let ghost old_self = *self;
        match self.find(&k) {
            Some(i) => {
                let ghost kv = k@;
                proof {
                    old_self.lemma_lookup(i as int);
                }
                self.entries.set(i, (k, v));
                proof {
                    assert forall|a: int, b: int|
                        0 <= a < b < self.entries@.len() implies #[trigger] self.entries@[a].0@
                        != #[trigger] self.entries@[b].0@ by {
                        assert(old_self.entries@[a].0@ != old_self.entries@[b].0@);
                    }
                    assert forall|key: K::V| #[trigger]
                        self.map().dom().contains(key) == old_self.map().insert(
                            kv,
                            v,
                        ).dom().contains(key) by {
                        if self.has(key) {
                            let j = choose|j: int|
                                0 <= j < self.entries@.len() && #[trigger] self.entries@[j].0@
                                    == key;
                            if j != i {
                                assert(old_self.entries@[j].0@ == key);
                            }
                        }
                        if old_self.has(key) {
                            let j = choose|j: int|
                                0 <= j < old_self.entries@.len() && #[trigger] old_self.entries@[j].0@
                                    == key;
                            assert(self.entries@[j].0@ == key);
                        }
                    }
                    assert forall|key: K::V| #[trigger]
                        self.map().dom().contains(key) implies self.map()[key] == old_self.map().insert(
                            kv,
                            v,
                        )[key] by {
                        let j = choose|j: int|
                            0 <= j < self.entries@.len() && #[trigger] self.entries@[j].0@ == key;
                        self.lemma_lookup(j);
                        if j != i {
                            old_self.lemma_lookup(j);
                        }
                    }
                    assert(self.map() =~= old_self.map().insert(kv, v));
                    assert(self.key_seq() =~= old_self.key_seq());
                }
            },
            None => {
                let ghost kv = k@;
                self.entries.push((k, v));
                proof {
                    let n = old_self.entries@.len() as int;
                    assert forall|a: int, b: int|
                        0 <= a < b < self.entries@.len() implies #[trigger] self.entries@[a].0@
                        != #[trigger] self.entries@[b].0@ by {
                        if b < n {
                            assert(old_self.entries@[a].0@ != old_self.entries@[b].0@);
                        } else {
                            assert(old_self.entries@[a].0@ == self.entries@[a].0@);
                        }
                    }
                    assert forall|key: K::V| #[trigger]
                        self.map().dom().contains(key) == old_self.map().insert(
                            kv,
                            v,
                        ).dom().contains(key) by {
                        if self.has(key) {
                            let j = choose|j: int|
                                0 <= j < self.entries@.len() && #[trigger] self.entries@[j].0@
                                    == key;
                            if j < n {
                                assert(old_self.entries@[j].0@ == key);
                            }
                        }
                        if old_self.has(key) {
                            let j = choose|j: int|
                                0 <= j < old_self.entries@.len() && #[trigger] old_self.entries@[j].0@
                                    == key;
                            assert(self.entries@[j].0@ == key);
                        }
                        if key == kv {
                            assert(self.entries@[n].0@ == key);
                        }
                    }
                    assert forall|key: K::V| #[trigger]
                        self.map().dom().contains(key) implies self.map()[key] == old_self.map().insert(
                            kv,
                            v,
                        )[key] by {
                        let j = choose|j: int|
                            0 <= j < self.entries@.len() && #[trigger] self.entries@[j].0@ == key;
                        self.lemma_lookup(j);
                        if j < n {
                            old_self.lemma_lookup(j);
                        }
                    }
                    assert(self.map() =~= old_self.map().insert(kv, v));
                    assert(self.key_seq() =~= old_self.key_seq().push(kv));
                }
            },
        }
    }

    /// Removes the entry under `k`, returning its value; the last entry takes its place.
    pub fn remove(&mut self, k: &K) -> (r: Option<V>)
        requires
            old(self).wf(),
        ensures
            final(self).wf(),
            final(self).map() == old(self).map().remove(k@),
            match r {
                Some(v) => old(self).map().dom().contains(k@) && v == old(self).map()[k@],
                None => !old(self).map().dom().contains(k@) && final(self).key_seq() == old(
                    self,
                ).key_seq(),
            },
    {
        let ghost old_self = *self;
        match self.find(k) {
            Some(i) => {
                proof {
                    old_self.lemma_lookup(i as int);
                }
                let (_, v) = self.entries.swap_remove(i);
                proof {
                    let n = old_self.entries@.len() as int;
                    // the new sequence: position i holds the old last entry (if i was not last)
                    assert forall|a: int| 0 <= a < self.entries@.len() implies #[trigger] self.entries@[a]
                        == (if a == i {
                        old_self.entries@[n - 1]
                    } else {
                        old_self.entries@[a]
                    }) by {}
                    assert forall|a: int, b: int|
                        0 <= a < b < self.entries@.len() implies #[trigger] self.entries@[a].0@
                        != #[trigger] self.entries@[b].0@ by {
                        if a == i {
                            assert(old_self.entries@[b].0@ != old_self.entries@[n - 1].0@);
                        } else if b == i {
                            assert(old_self.entries@[a].0@ != old_self.entries@[n - 1].0@);
                        } else {
                            assert(old_self.entries@[a].0@ != old_self.entries@[b].0@);
                        }
                    }
                    assert forall|key: K::V| #[trigger]
                        self.map().dom().contains(key) == old_self.map().remove(
                            k@,
                        ).dom().contains(key) by {
                        if self.has(key) {
                            let j = choose|j: int|
                                0 <= j < self.entries@.len() && #[trigger] self.entries@[j].0@
                                    == key;
                            if j == i {
                                assert(old_self.entries@[n - 1].0@ == key);
                                assert(old_self.entries@[i as int].0@ != old_self.entries@[n
                                    - 1].0@);
                            } else {
                                assert(old_self.entries@[j].0@ == key);
                                if j < i {
                                    assert(old_self.entries@[j].0@ != old_self.entries@[i as int].0@);
                                } else {
                                    assert(old_self.entries@[i as int].0@ != old_self.entries@[j].0@);
                                }
                            }
                        }
                        if old_self.has(key) && key != k@ {
                            let j = choose|j: int|
                                0 <= j < old_self.entries@.len() && #[trigger] old_self.entries@[j].0@
                                    == key;
                            if j == n - 1 {
                                assert(self.entries@[i as int].0@ == key);
                            } else {
                                assert(j != i);
                                assert(self.entries@[j].0@ == key);
                            }
                        }
                    }
                    assert forall|key: K::V| #[trigger]
                        self.map().dom().contains(key) implies self.map()[key] == old_self.map().remove(
                            k@,
                        )[key] by {
                        let j = choose|j: int|
                            0 <= j < self.entries@.len() && #[trigger] self.entries@[j].0@ == key;
                        self.lemma_lookup(j);
                        if j == i {
                            old_self.lemma_lookup(n - 1);
                        } else {
                            old_self.lemma_lookup(j);
                        }
                    }
                    assert(self.map() =~= old_self.map().remove(k@));
                }
                Some(v)
            },
            None => {
                assert(old_self.map().remove(k@) =~= old_self.map());
                None
            },
        }
    }
}

impl<K: ViewKey, V> AssocMap<K, V> {
    /// Replaces the value of the entry at position `i`.
    pub fn set_value(&mut self, i: usize, v: V)
        requires
            old(self).wf(),
            i < old(self).entries@.len(),
        ensures
            final(self).wf(),
            final(self).map() == old(self).map().insert(old(self).entries@[i as int].0@, v),
            final(self).entries@.len() == old(self).entries@.len(),
            forall|j: int|
                0 <= j < final(self).entries@.len() ==> (#[trigger] final(self).entries@[j]).0@
                    == old(self).entries@[j].0@,
            final(self).entries@[i as int].1 == v,
            forall|j: int|
                0 <= j < final(self).entries@.len() && j != i ==> final(self).entries@[j]
                    == old(self).entries@[j],
    {
        let ghost old_self = *self;
        let k = self.entries[i].0.copy_key();
        let ghost kv = k@;
        self.entries.set(i, (k, v));
        proof {
            assert forall|a: int, b: int|
                0 <= a < b < self.entries@.len() implies #[trigger] self.entries@[a].0@
                != #[trigger] self.entries@[b].0@ by {
                assert(old_self.entries@[a].0@ != old_self.entries@[b].0@);
            }
            assert forall|key: K::V| #[trigger]
                self.map().dom().contains(key) == old_self.map().insert(kv, v).dom().contains(
                    key,
                ) by {
                if self.has(key) {
                    let j = choose|j: int|
                        0 <= j < self.entries@.len() && #[trigger] self.entries@[j].0@ == key;
                    assert(old_self.entries@[j].0@ == key);
                }
                if old_self.has(key) {
                    let j = choose|j: int|
                        0 <= j < old_self.entries@.len() && #[trigger] old_self.entries@[j].0@
                            == key;
                    assert(self.entries@[j].0@ == key);
                }
                if key == kv {
                    assert(self.entries@[i as int].0@ == key);
                }
            }
            assert forall|key: K::V| #[trigger]
                self.map().dom().contains(key) implies self.map()[key] == old_self.map().insert(
                    kv,
                    v,
                )[key] by {
                let j = choose|j: int|
                    0 <= j < self.entries@.len() && #[trigger] self.entries@[j].0@ == key;
                self.lemma_lookup(j);
                if j != i {
                    old_self.lemma_lookup(j);
                }
            }
            assert(self.map() =~= old_self.map().insert(kv, v));
        }
    }
}

} // verus!
