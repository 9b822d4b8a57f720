//! Indexes from a string (a label or an author) to a set of ids.
use crate::assoc::AssocMap;
use vstd::prelude::*;

verus! {

/// Ids: copyable values with an executable equality and order that agree with
/// their integer rank.
pub trait IdKey: Copy + Sized {
    spec fn rank(self) -> int;

    fn same(&self, other: &Self) -> (r: bool)
        ensures
            r == (*self == *other),
    ;

    fn less(&self, other: &Self) -> (r: bool)
        ensures
            r == (self.rank() < other.rank()),
    ;

    proof fn rank_injective(a: Self, b: Self)
        ensures
            a.rank() == b.rank() ==> a == b,
    ;
}

impl IdKey for u64 {
    open spec fn rank(self) -> int {
        self as int
    }

    fn same(&self, other: &Self) -> (r: bool) {
        *self == *other
    }

    fn less(&self, other: &Self) -> (r: bool) {
        *self < *other
    }

    proof fn rank_injective(a: Self, b: Self) {
    }
}

impl IdKey for u32 {
    open spec fn rank(self) -> int {
        self as int
    }

    fn same(&self, other: &Self) -> (r: bool) {
        *self == *other
    }

    fn less(&self, other: &Self) -> (r: bool) {
        *self < *other
    }

    proof fn rank_injective(a: Self, b: Self) {
    }
}

/// The ids of a sequence, ordered strictly by rank (so each once).
pub open spec fn strictly_sorted<T: IdKey>(s: Seq<T>) -> bool {
    forall|i: int, j: int| 0 <= i < j < s.len() ==> (#[trigger] s[i]).rank() < (#[trigger] s[j]).rank()
}

/// Whether `v` holds `id`.
pub fn contains_id<T: IdKey>(v: &Vec<T>, id: &T) -> (r: bool)
    ensures
        r == v@.contains(*id),
{
    let mut i: usize = 0;
    while i < v.len()
        invariant
            i <= v@.len(),
            forall|j: int| 0 <= j < i ==> v@[j] != *id,
        decreases v@.len() - i,
    {
        if v[i].same(id) {
            return true;
        }
        i += 1;
    }
    false
}

/// A copy of a vector of ids.
pub fn copy_ids<T: IdKey>(v: &Vec<T>) -> (r: Vec<T>)
    ensures
        r@ == v@,
{
    let mut r: Vec<T> = Vec::new();
    let mut i: usize = 0;
    while i < v.len()
        invariant
            i <= v@.len(),
            r@ == v@.subrange(0, i as int),
        decreases v@.len() - i,
    {
        r.push(v[i]);
        proof {
            assert(r@ =~= v@.subrange(0, i + 1));
        }
        i += 1;
    }
    assert(r@ =~= v@);
    r
}

/// The ids of `v` in increasing order, each once.
pub fn sorted_ids<T: IdKey>(v: &Vec<T>) -> (r: Vec<T>)
    ensures
        r@.to_set() == v@.to_set(),
        strictly_sorted(r@),
{
    let mut out: Vec<T> = Vec::new();
    let mut i: usize = 0;
    while i < v.len()
        invariant
            i <= v@.len(),
            out@.to_set() == v@.subrange(0, i as int).to_set(),
            strictly_sorted(out@),
        decreases v@.len() - i,
    {
        let x = v[i];
        let ghost before = out@;
        proof {
            assert(v@.subrange(0, i + 1) =~= v@.subrange(0, i as int).push(x));
            v@.subrange(0, i as int).lemma_push_to_set_commute(x);
        }
        if !contains_id(&out, &x) {
            let mut pos: usize = 0;
            while pos < out.len() && out[pos].less(&x)
                invariant
                    pos <= out@.len(),
                    out@ == before,
                    forall|j: int| 0 <= j < pos ==> (#[trigger] out@[j]).rank() < x.rank(),
                decreases out@.len() - pos,
            {
                pos += 1;
            }
            out.insert(pos, x);
            proof {
                assert forall|j: int| pos < j < out@.len() implies x.rank() < (#[trigger] out@[j]).rank() by {
                    let b = before[j - 1];
                    assert(out@[j] == b);
                    let p = before[pos as int];
                    if pos as int != j - 1 {
                        assert(p.rank() < b.rank());
                    }
                    assert(!(p.rank() < x.rank()));
                    if p.rank() == x.rank() {
                        T::rank_injective(p, x);
                        assert(before.contains(x));
                    }
                }
                assert forall|a: int, b: int| 0 <= a < b < out@.len() implies (#[trigger] out@[a]).rank() < (#[trigger] out@[b]).rank() by {
                    if a < pos && b > pos {
                        assert(out@[a] == before[a]);
                        assert(x.rank() < out@[b].rank());
                    } else if a < pos && b == pos {
                    } else if a == pos {
                    } else if b < pos {
                        assert(out@[a] == before[a]);
                        assert(out@[b] == before[b]);
                    } else {
                        assert(out@[a] == before[a - 1]);
                        assert(out@[b] == before[b - 1]);
                    }
                }
                assert(out@.to_set() =~= before.to_set().insert(x)) by {
                    assert forall|y: T| out@.to_set().contains(y) == before.to_set().insert(x).contains(y) by {
                        if out@.contains(y) {
                            let j = choose|j: int| 0 <= j < out@.len() && out@[j] == y;
                            if j < pos {
                                assert(before[j] == y);
                            } else if j > pos {
                                assert(before[j - 1] == y);
                            }
                        }
                        if before.contains(y) {
                            let j = choose|j: int| 0 <= j < before.len() && before[j] == y;
                            if j < pos {
                                assert(out@[j] == y);
                            } else {
                                assert(out@[j + 1] == y);
                            }
                        }
                        if y == x {
                            assert(out@[pos as int] == y);
                        }
                    }
                }
            }
        } else {
            proof {
                assert(before.to_set().insert(x) =~= before.to_set());
            }
        }
        i += 1;
    }
    proof {
        assert(v@.subrange(0, v@.len() as int) =~= v@);
    }
    out
}

/// A map from strings to sets of ids, each set kept as a vector without repeats.
pub struct SetIndex<T> {
    pub map: AssocMap<String, Vec<T>>,
}

impl<T: IdKey> SetIndex<T> {
    pub open spec fn wf(&self) -> bool {
        &&& self.map.wf()
        &&& forall|i: int| 0 <= i < self.map.entries@.len() ==> (#[trigger] self.map.entries@[i]).1@.no_duplicates()
    }

    pub open spec fn view(&self) -> Map<Seq<char>, Set<T>> {
        Map::new(|k: Seq<char>| self.map.map().dom().contains(k), |k: Seq<char>| self.map.map()[k]@.to_set())
    }

    /// The set under `k`, empty when there is none.
    pub open spec fn ids(&self, k: Seq<char>) -> Set<T> {
        if self.view().dom().contains(k) {
            self.view()[k]
        } else {
            Set::empty()
        }
    }

    pub fn new() -> (r: Self)
        ensures
            r.wf(),
            r.view() == Map::<Seq<char>, Set<T>>::empty(),
    {
        let r = SetIndex { map: AssocMap::new() };
        assert(r.view() =~= Map::<Seq<char>, Set<T>>::empty());
        r
    }

    proof fn lemma_entry(&self, j: int)
        requires
            self.wf(),
            0 <= j < self.map.entries@.len(),
        ensures
            self.view().dom().contains(self.map.entries@[j].0@),
            self.view()[self.map.entries@[j].0@] == self.map.entries@[j].1@.to_set(),
            self.map.entries@[j].1@.no_duplicates(),
    {
        self.map.lemma_lookup(j);
    }

    /// Adds `id` to the set under `key`, creating the set when there is none.
    pub fn insert_id(&mut self, key: &String, id: T)
        requires
            old(self).wf(),
        ensures
            final(self).wf(),
            final(self).view() == old(self).view().insert(key@, old(self).ids(key@).insert(id)),
    {
        let ghost old_view = self.view();
        match self.map.find(key) {
            Some(i) => {
                proof {
                    self.lemma_entry(i as int);
                }
                let mut ids = copy_ids(&self.map.entries[i].1);
                if !contains_id(&ids, &id) {
                    let ghost before = ids@;
                    ids.push(id);
                    proof {
                        assert(ids@.no_duplicates()) by {
                            assert forall|a: int, b: int| 0 <= a < ids@.len() && 0 <= b < ids@.len() && a != b implies ids@[a] != ids@[b] by {
                                if a < before.len() && b < before.len() {
                                    assert(before[a] != before[b]);
                                } else if a < before.len() {
                                    assert(before.contains(before[a]));
                                } else if b < before.len() {
                                    assert(before.contains(before[b]));
                                }
                            }
                        }
                        before.lemma_push_to_set_commute(id);
                    }
                } else {
                    proof {
                        assert(ids@.to_set().insert(id) =~= ids@.to_set());
                    }
                }
                let ghost pre = *self;
                self.map.set_value(i, ids);
                proof {
                    assert forall|j: int| 0 <= j < self.map.entries@.len() implies (#[trigger] self.map.entries@[j]).1@.no_duplicates() by {
                        if j != i {
                            assert(self.map.entries@[j] == pre.map.entries@[j]);
                        }
                    }
                    assert(self.view() =~= old_view.insert(key@, old_view[key@].insert(id)));
                }
            },
            None => {
                let mut ids: Vec<T> = Vec::new();
                ids.push(id);
                proof {
                    assert forall|y: T| ids@.to_set().contains(y) == Set::<T>::empty().insert(id).contains(y) by {
                        if y == id {
                            assert(ids@[0] == y);
                        }
                    }
                    assert(ids@.to_set() =~= Set::<T>::empty().insert(id));
                }
                let ghost pre = *self;
                self.map.insert(key.clone(), ids);
                proof {
                    assert forall|j: int| 0 <= j < self.map.entries@.len() implies (#[trigger] self.map.entries@[j]).1@.no_duplicates() by {
                        if j < pre.map.entries@.len() {
                            assert(self.map.entries@[j] == pre.map.entries@[j]);
                        } else {
                            assert(self.map.entries@[j].1@ == ids@);
                        }
                    }
                    assert(self.view() =~= old_view.insert(key@, Set::<T>::empty().insert(id)));
                }
            },
        }
    }

    /// Removes `id` from the set under `key`, which must exist; the set stays, possibly empty.
    pub fn remove_id(&mut self, key: &String, id: &T)
        requires
            old(self).wf(),
            old(self).view().dom().contains(key@),
        ensures
            final(self).wf(),
            final(self).view() == old(self).view().insert(key@, old(self).view()[key@].remove(*id)),
    {
        let ghost old_view = self.view();
        let i = self.map.find(key).unwrap();
        proof {
            self.lemma_entry(i as int);
        }
        let ids = &self.map.entries[i].1;
        let ghost src = ids@;
        let mut kept: Vec<T> = Vec::new();
        let mut j: usize = 0;
        while j < ids.len()
            invariant
                j <= src.len(),
                ids@ == src,
                src.no_duplicates(),
                kept@.no_duplicates(),
                kept@.to_set() == src.subrange(0, j as int).to_set().remove(*id),
                forall|a: int| 0 <= a < kept@.len() ==> src.subrange(0, j as int).contains(#[trigger] kept@[a]),
            decreases src.len() - j,
        {
            let x = ids[j];
            let ghost before = kept@;
            proof {
                assert(src.subrange(0, j + 1) =~= src.subrange(0, j as int).push(x));
                src.subrange(0, j as int).lemma_push_to_set_commute(x);
            }
            if !x.same(id) {
                kept.push(x);
                proof {
                    assert(!src.subrange(0, j as int).contains(x)) by {
                        if src.subrange(0, j as int).contains(x) {
                            let k = choose|k: int| 0 <= k < j && src.subrange(0, j as int)[k] == x;
                            assert(src[k] == src[j as int]);
                        }
                    }
                    assert(kept@.no_duplicates()) by {
                        assert forall|a: int, b: int| 0 <= a < kept@.len() && 0 <= b < kept@.len() && a != b implies kept@[a] != kept@[b] by {
                            if a < before.len() && b < before.len() {
                                assert(before[a] != before[b]);
                            } else if a < before.len() {
                                assert(src.subrange(0, j as int).contains(before[a]));
                            } else if b < before.len() {
                                assert(src.subrange(0, j as int).contains(before[b]));
                            }
                        }
                    }
                    before.lemma_push_to_set_commute(x);
                    assert(kept@.to_set() =~= src.subrange(0, j + 1).to_set().remove(*id));
                    assert forall|a: int| 0 <= a < kept@.len() implies src.subrange(0, j + 1).contains(#[trigger] kept@[a]) by {
                        if a < before.len() {
                            let k = choose|k: int| 0 <= k < j && src.subrange(0, j as int)[k] == before[a];
                            assert(src.subrange(0, j + 1)[k] == before[a]);
                        } else {
                            assert(src.subrange(0, j + 1)[j as int] == x);
                        }
                    }
                }
            } else {
                proof {
                    assert(kept@.to_set() =~= src.subrange(0, j + 1).to_set().remove(*id));
                    assert forall|a: int| 0 <= a < kept@.len() implies src.subrange(0, j + 1).contains(#[trigger] kept@[a]) by {
                        let k = choose|k: int| 0 <= k < j && src.subrange(0, j as int)[k] == kept@[a];
                        assert(src.subrange(0, j + 1)[k] == kept@[a]);
                    }
                }
            }
            j += 1;
        }
        proof {
            assert(src.subrange(0, src.len() as int) =~= src);
        }
        let ghost pre = *self;
        self.map.set_value(i, kept);
        proof {
            assert forall|k: int| 0 <= k < self.map.entries@.len() implies (#[trigger] self.map.entries@[k]).1@.no_duplicates() by {
                if k != i {
                    assert(self.map.entries@[k] == pre.map.entries@[k]);
                }
            }
            assert(self.view() =~= old_view.insert(key@, old_view[key@].remove(*id)));
        }
    }

    /// The ids under `key` in increasing order, each once; none when there is no set.
    pub fn sorted(&self, key: &String) -> (r: Vec<T>)
        requires
            self.wf(),
        ensures
            r@.to_set() == self.ids(key@),
            strictly_sorted(r@),
    {
        match self.map.find(key) {
            Some(i) => {
                proof {
                    self.lemma_entry(i as int);
                }
                sorted_ids(&self.map.entries[i].1)
            },
            None => {
                let r: Vec<T> = Vec::new();
                assert(r@.to_set() =~= Set::<T>::empty());
                r
            },
        }
    }

    /// The ids under `key`, each once, in the order they were added; none when there is no set.
    pub fn ids_of(&self, key: &String) -> (r: Vec<T>)
        requires
            self.wf(),
        ensures
            r@.to_set() == self.ids(key@),
            r@.no_duplicates(),
    {
        match self.map.find(key) {
            Some(i) => {
                proof {
                    self.lemma_entry(i as int);
                }
                copy_ids(&self.map.entries[i].1)
            },
            None => {
                let r: Vec<T> = Vec::new();
                assert(r@.to_set() =~= Set::<T>::empty());
                r
            },
        }
    }
}

} // verus!
