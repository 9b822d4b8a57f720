//! Label sets and the label indexes kept up to date by posting and editing.
use crate::access_control::rules::strings_view;
use crate::index::{IdKey, SetIndex};
use crate::text::str_eq;
use vstd::prelude::*;

verus! {

/// The labels of a list, as a set.
pub open spec fn labels_of(v: Seq<String>) -> Set<Seq<char>> {
    strings_view(v).to_set()
}

/// The ids under `k`, empty when there are none.
pub open spec fn ids_or_empty<T>(m: Map<Seq<char>, Set<T>>, k: Seq<char>) -> Set<T> {
    if m.dom().contains(k) {
        m[k]
    } else {
        Set::empty()
    }
}

/// The index with `id` added under every label of `labels`.
pub open spec fn index_add_all<T>(m: Map<Seq<char>, Set<T>>, labels: Set<Seq<char>>, id: T) -> Map<Seq<char>, Set<T>> {
    Map::new(
        |k: Seq<char>| m.dom().contains(k) || labels.contains(k),
        |k: Seq<char>| if labels.contains(k) {
            ids_or_empty(m, k).insert(id)
        } else {
            m[k]
        },
    )
}

/// The index with `id` taken out from under every label of `labels`; the labels stay.
pub open spec fn index_remove_all<T>(m: Map<Seq<char>, Set<T>>, labels: Set<Seq<char>>, id: T) -> Map<Seq<char>, Set<T>> {
    Map::new(
        |k: Seq<char>| m.dom().contains(k),
        |k: Seq<char>| if labels.contains(k) {
            m[k].remove(id)
        } else {
            m[k]
        },
    )
}

/// The index after the labels of `id` changed from `before` to `after`: it leaves
/// the labels it lost and joins the labels it gained.
pub open spec fn index_after_edit<T>(
    m: Map<Seq<char>, Set<T>>,
    before: Set<Seq<char>>,
    after: Set<Seq<char>>,
    id: T,
) -> Map<Seq<char>, Set<T>> {
    index_add_all(index_remove_all(m, before.difference(after), id), after.difference(before), id)
}

/// After the labels of `id` change from `before` to `after`, a label lists `id`
/// exactly when `id` now has that label, provided the index listed it exactly
/// under `before`; the other ids stay where they were.
pub proof fn law_edit_keeps_index_exact<T>(
    m: Map<Seq<char>, Set<T>>,
    before: Set<Seq<char>>,
    after: Set<Seq<char>>,
    id: T,
)
    requires
        forall|k: Seq<char>| #[trigger] ids_or_empty(m, k).contains(id) <==> before.contains(k),
    ensures
        forall|k: Seq<char>|
            #[trigger] ids_or_empty(index_after_edit(m, before, after, id), k).contains(id) <==> after.contains(k),
        forall|k: Seq<char>, x: T|
            x != id ==> (#[trigger] ids_or_empty(index_after_edit(m, before, after, id), k).contains(x)
                <==> ids_or_empty(m, k).contains(x)),
{
    let r = index_remove_all(m, before.difference(after), id);
    let e = index_after_edit(m, before, after, id);
    assert forall|k: Seq<char>| #[trigger] ids_or_empty(e, k).contains(id) <==> after.contains(k) by {
        assert(ids_or_empty(m, k).contains(id) <==> before.contains(k));
    }
    assert forall|k: Seq<char>, x: T|
        x != id implies (#[trigger] ids_or_empty(e, k).contains(x) <==> ids_or_empty(m, k).contains(x)) by {
        assert(ids_or_empty(r, k).contains(x) <==> ids_or_empty(m, k).contains(x));
    }
}

/// Adding `id` under labels and then taking it out again leaves every label
/// with the ids it had, when `id` was under none of them.
pub proof fn law_add_then_remove_labels<T>(m: Map<Seq<char>, Set<T>>, labels: Set<Seq<char>>, id: T)
    requires
        forall|k: Seq<char>| labels.contains(k) ==> !(#[trigger] ids_or_empty(m, k)).contains(id),
    ensures
        forall|k: Seq<char>|
            #[trigger] ids_or_empty(index_remove_all(index_add_all(m, labels, id), labels, id), k)
                == ids_or_empty(m, k),
{
    let a = index_add_all(m, labels, id);
    let r = index_remove_all(a, labels, id);
    assert forall|k: Seq<char>| #[trigger] ids_or_empty(r, k) == ids_or_empty(m, k) by {
        if labels.contains(k) {
            assert(!ids_or_empty(m, k).contains(id));
            assert(ids_or_empty(m, k).insert(id).remove(id) =~= ids_or_empty(m, k));
        }
    }
}

proof fn lemma_labels_push(s: Seq<String>, x: String)
    ensures
        labels_of(s.push(x)) == labels_of(s).insert(x@),
{
    assert(strings_view(s.push(x)) =~= strings_view(s).push(x@));
    strings_view(s).lemma_push_to_set_commute(x@);
}

/// A copy of a list of strings.
pub fn clone_strings(v: &Vec<String>) -> (r: Vec<String>)
    ensures
        strings_view(r@) == strings_view(v@),
        r@.len() == v@.len(),
{
    let mut r: Vec<String> = Vec::new();
    let mut i: usize = 0;
    while i < v.len()
        invariant
            i <= v@.len(),
            strings_view(r@) == strings_view(v@).subrange(0, i as int),
        decreases v@.len() - i,
    {
        let ghost before = r@;
        r.push(v[i].clone());
        proof {
            assert(strings_view(r@) =~= strings_view(before).push(v@[i as int]@));
            assert(strings_view(v@).subrange(0, i + 1) =~= strings_view(v@).subrange(0, i as int).push(v@[i as int]@));
        }
        i += 1;
    }
    assert(strings_view(v@).subrange(0, v@.len() as int) =~= strings_view(v@));
    r
}

/// Whether `v` holds a label equal to `l`.
pub fn has_label(v: &Vec<String>, l: &String) -> (r: bool)
    ensures
        r == labels_of(v@).contains(l@),
{
    let mut i: usize = 0;
    while i < v.len()
        invariant
            i <= v@.len(),
            forall|j: int| 0 <= j < i ==> v@[j]@ != l@,
        decreases v@.len() - i,
    {
        if str_eq(v[i].as_str(), l.as_str()) {
            proof {
                assert(strings_view(v@)[i as int] == l@);
            }
            return true;
        }
        i += 1;
    }
    proof {
        if labels_of(v@).contains(l@) {
            let j = choose|j: int| 0 <= j < strings_view(v@).len() && strings_view(v@)[j] == l@;
            assert(v@[j]@ == l@);
        }
    }
    false
}

/// The labels of `a` that `b` lacks, in the order of `a`.
pub fn label_diff(a: &Vec<String>, b: &Vec<String>) -> (r: Vec<String>)
    ensures
        labels_of(r@) == labels_of(a@).difference(labels_of(b@)),
{
    let mut r: Vec<String> = Vec::new();
    let mut i: usize = 0;
    while i < a.len()
        invariant
            i <= a@.len(),
            labels_of(r@) == labels_of(a@.subrange(0, i as int)).difference(labels_of(b@)),
        decreases a@.len() - i,
    {
        proof {
            assert(a@.subrange(0, i + 1) =~= a@.subrange(0, i as int).push(a@[i as int]));
            lemma_labels_push(a@.subrange(0, i as int), a@[i as int]);
        }
        if !has_label(b, &a[i]) {
            let ghost before = r@;
            r.push(a[i].clone());
            proof {
                lemma_labels_push(before, a@[i as int]);
                assert(labels_of(r@) =~= labels_of(a@.subrange(0, i + 1)).difference(labels_of(b@)));
            }
        } else {
            proof {
                assert(labels_of(r@) =~= labels_of(a@.subrange(0, i + 1)).difference(labels_of(b@)));
            }
        }
        i += 1;
    }
    proof {
        assert(a@.subrange(0, a@.len() as int) =~= a@);
    }
    r
}

/// Whether every label of `labels` has an entry in the index.
pub fn all_indexed<T: IdKey>(index: &SetIndex<T>, labels: &Vec<String>) -> (r: bool)
    requires
        index.wf(),
    ensures
        r == labels_of(labels@).subset_of(index.view().dom()),
{
    let mut i: usize = 0;
    while i < labels.len()
        invariant
            index.wf(),
            i <= labels@.len(),
            labels_of(labels@.subrange(0, i as int)).subset_of(index.view().dom()),
        decreases labels@.len() - i,
    {
        proof {
            assert(labels@.subrange(0, i + 1) =~= labels@.subrange(0, i as int).push(labels@[i as int]));
            lemma_labels_push(labels@.subrange(0, i as int), labels@[i as int]);
        }
        if index.map.find(&labels[i]).is_none() {
            proof {
                assert(strings_view(labels@)[i as int] == labels@[i as int]@);
                assert(labels_of(labels@).contains(labels@[i as int]@));
            }
            return false;
        }
        i += 1;
    }
    proof {
        assert(labels@.subrange(0, labels@.len() as int) =~= labels@);
    }
    true
}

/// Adds `id` under each of the labels.
pub fn add_labels<T: IdKey>(index: &mut SetIndex<T>, labels: &Vec<String>, id: T)
    requires
        old(index).wf(),
    ensures
        final(index).wf(),
        final(index).view() == index_add_all(old(index).view(), labels_of(labels@), id),
{
    let ghost orig = index.view();
    let mut i: usize = 0;
    proof {
        assert(labels_of(labels@.subrange(0, 0)) =~= Set::<Seq<char>>::empty());
        assert(orig =~= index_add_all(orig, Set::<Seq<char>>::empty(), id));
    }
    while i < labels.len()
        invariant
            index.wf(),
            i <= labels@.len(),
            index.view() == index_add_all(orig, labels_of(labels@.subrange(0, i as int)), id),
        decreases labels@.len() - i,
    {
        let ghost s = labels_of(labels@.subrange(0, i as int));
        let ghost l = labels@[i as int]@;
        proof {
            assert(labels@.subrange(0, i + 1) =~= labels@.subrange(0, i as int).push(labels@[i as int]));
            lemma_labels_push(labels@.subrange(0, i as int), labels@[i as int]);
        }
        let ghost cur = index.view();
        index.insert_id(&labels[i], id);
        proof {
            assert(index.view() =~= index_add_all(orig, s.insert(l), id)) by {
                assert forall|k: Seq<char>| #[trigger] index.view().dom().contains(k) implies index.view()[k]
                    == index_add_all(orig, s.insert(l), id)[k] by {
                    if k == l {
                        assert(index.view()[k] =~= index_add_all(orig, s.insert(l), id)[k]);
                    }
                }
            }
        }
        i += 1;
    }
    proof {
        assert(labels@.subrange(0, labels@.len() as int) =~= labels@);
    }
}

/// Takes `id` out from under each of the labels, which must all be indexed.
pub fn remove_labels<T: IdKey>(index: &mut SetIndex<T>, labels: &Vec<String>, id: &T)
    requires
        old(index).wf(),
        labels_of(labels@).subset_of(old(index).view().dom()),
    ensures
        final(index).wf(),
        final(index).view() == index_remove_all(old(index).view(), labels_of(labels@), *id),
{
    let ghost orig = index.view();
    let mut i: usize = 0;
    proof {
        assert(labels_of(labels@.subrange(0, 0)) =~= Set::<Seq<char>>::empty());
        assert(orig =~= index_remove_all(orig, Set::<Seq<char>>::empty(), *id));
    }
    while i < labels.len()
        invariant
            index.wf(),
            i <= labels@.len(),
            labels_of(labels@).subset_of(orig.dom()),
            index.view() == index_remove_all(orig, labels_of(labels@.subrange(0, i as int)), *id),
        decreases labels@.len() - i,
    {
        let ghost s = labels_of(labels@.subrange(0, i as int));
        let ghost l = labels@[i as int]@;
        proof {
            assert(labels@.subrange(0, i + 1) =~= labels@.subrange(0, i as int).push(labels@[i as int]));
            lemma_labels_push(labels@.subrange(0, i as int), labels@[i as int]);
            assert(strings_view(labels@)[i as int] == l);
            assert(labels_of(labels@).contains(l));
        }
        index.remove_id(&labels[i], id);
        proof {
            assert(index.view() =~= index_remove_all(orig, s.insert(l), *id)) by {
                assert forall|k: Seq<char>| #[trigger] index.view().dom().contains(k) implies index.view()[k]
                    == index_remove_all(orig, s.insert(l), *id)[k] by {
                    if k == l {
                        assert(index.view()[k] =~= index_remove_all(orig, s.insert(l), *id)[k]);
                    }
                }
            }
        }
        i += 1;
    }
    proof {
        assert(labels@.subrange(0, labels@.len() as int) =~= labels@);
    }
}

/// Moves `id` from its old labels to its new ones: it leaves the labels it
/// lost, which must be indexed, and joins those it gained.
pub fn edit_labels<T: IdKey>(index: &mut SetIndex<T>, old_labels: &Vec<String>, new_labels: &Vec<String>, id: T)
    requires
        old(index).wf(),
        labels_of(old_labels@).difference(labels_of(new_labels@)).subset_of(old(index).view().dom()),
    ensures
        final(index).wf(),
        final(index).view() == index_after_edit(
            old(index).view(),
            labels_of(old_labels@),
            labels_of(new_labels@),
            id,
        ),
{
    let removed = label_diff(old_labels, new_labels);
    let added = label_diff(new_labels, old_labels);
    remove_labels(index, &removed, &id);
    add_labels(index, &added, id);
}

/// The keys of an index, in entry order.
pub fn keys_of<T: IdKey>(index: &SetIndex<T>) -> (r: Vec<String>)
    requires
        index.wf(),
    ensures
        strings_view(r@).to_set() == index.view().dom(),
{
    let mut r: Vec<String> = Vec::new();
    let mut i: usize = 0;
    while i < index.map.entries.len()
        invariant
            index.wf(),
            i <= index.map.entries@.len(),
            strings_view(r@).to_set() == Set::new(|k: Seq<char>| exists|j: int| 0 <= j < i && #[trigger] index.map.entries@[j].0@ == k),
        decreases index.map.entries@.len() - i,
    {
        let ghost before = r@;
        r.push(index.map.entries[i].0.clone());
        proof {
            lemma_labels_push(before, index.map.entries@[i as int].0);
            assert(strings_view(r@).to_set() =~= Set::new(|k: Seq<char>| exists|j: int| 0 <= j < i + 1 && #[trigger] index.map.entries@[j].0@ == k)) by {
                assert forall|k: Seq<char>| #[trigger] strings_view(r@).to_set().contains(k) == (exists|j: int| 0 <= j < i + 1 && #[trigger] index.map.entries@[j].0@ == k) by {
                    if exists|j: int| 0 <= j < i + 1 && #[trigger] index.map.entries@[j].0@ == k {
                        let j = choose|j: int| 0 <= j < i + 1 && #[trigger] index.map.entries@[j].0@ == k;
                        if j < i {
                            assert(labels_of(before).contains(k));
                        }
                    }
                }
            }
        }
        i += 1;
    }
    proof {
        assert forall|k: Seq<char>| #[trigger] strings_view(r@).to_set().contains(k) == index.view().dom().contains(k) by {
            if index.view().dom().contains(k) {
                let j = index.map.index_of(k);
                assert(index.map.entries@[j].0@ == k);
            }
        }
        assert(strings_view(r@).to_set() =~= index.view().dom());
    }
    r
}

impl super::Contract {
    /// All post labels, in increasing order.
    pub fn get_all_labels(&self) -> (r: Vec<String>)
        requires
            self.wf(),
        ensures
            strings_view(r@).to_set() == self.label_to_posts.view().dom(),
            crate::text::texts_sorted(strings_view(r@)),
    {
        crate::text::sort_strings(keys_of(&self.label_to_posts))
    }

    /// All proposal labels, in increasing order.
    pub fn get_all_proposal_labels(&self) -> (r: Vec<String>)
        requires
            self.wf(),
        ensures
            strings_view(r@).to_set() == self.label_to_proposals.view().dom(),
            crate::text::texts_sorted(strings_view(r@)),
    {
        crate::text::sort_strings(keys_of(&self.label_to_proposals))
    }

    /// All RFP labels, in increasing order.
    pub fn get_all_rfp_labels(&self) -> (r: Vec<String>)
        requires
            self.wf(),
        ensures
            strings_view(r@).to_set() == self.label_to_rfps.view().dom(),
            crate::text::texts_sorted(strings_view(r@)),
    {
        crate::text::sort_strings(keys_of(&self.label_to_rfps))
    }

    /// All post authors, in increasing order.
    pub fn get_all_authors(&self) -> (r: Vec<String>)
        requires
            self.wf(),
        ensures
            strings_view(r@).to_set() == self.authors.view().dom(),
            crate::text::texts_sorted(strings_view(r@)),
    {
        crate::text::sort_strings(keys_of(&self.authors))
    }

    /// All proposal authors, in increasing order.
    pub fn get_all_proposal_authors(&self) -> (r: Vec<String>)
        requires
            self.wf(),
        ensures
            strings_view(r@).to_set() == self.author_proposals.view().dom(),
            crate::text::texts_sorted(strings_view(r@)),
    {
        crate::text::sort_strings(keys_of(&self.author_proposals))
    }

    /// The keys of the index that `editor` may use, in increasing order.
    pub fn filtered_labels<T: IdKey>(&self, env: &super::Env, index: &SetIndex<T>, editor: &String) -> (r: Vec<String>)
        requires
            self.wf(),
            index.wf(),
        ensures
            strings_view(r@).to_set() == index.view().dom().filter(
                |l: Seq<char>| self.labels_allowed(env.current@, editor@, seq![l]),
            ),
            crate::text::texts_sorted(strings_view(r@)),
    {
        let keys = keys_of(index);
        let ghost allowed = |l: Seq<char>| self.labels_allowed(env.current@, editor@, seq![l]);
        let mut kept: Vec<String> = Vec::new();
        let mut i: usize = 0;
        while i < keys.len()
            invariant
                self.wf(),
                i <= keys@.len(),
                labels_of(kept@) == labels_of(keys@.subrange(0, i as int)).filter(allowed),
                allowed == (|l: Seq<char>| self.labels_allowed(env.current@, editor@, seq![l])),
            decreases keys@.len() - i,
        {
            let ghost l = keys@[i as int]@;
            proof {
                assert(keys@.subrange(0, i + 1) =~= keys@.subrange(0, i as int).push(keys@[i as int]));
                lemma_labels_push(keys@.subrange(0, i as int), keys@[i as int]);
            }
            let one = vec![keys[i].clone()];
            proof {
                assert(strings_view(one@) =~= seq![l]);
            }
            if self.is_allowed_to_use_labels(env, Some(editor.clone()), one) {
                let ghost before = kept@;
                kept.push(keys[i].clone());
                proof {
                    lemma_labels_push(before, keys@[i as int]);
                    assert(labels_of(kept@) =~= labels_of(keys@.subrange(0, i + 1)).filter(allowed));
                }
            } else {
                proof {
                    assert(labels_of(kept@) =~= labels_of(keys@.subrange(0, i + 1)).filter(allowed));
                }
            }
            i += 1;
        }
        proof {
            assert(keys@.subrange(0, keys@.len() as int) =~= keys@);
        }
        crate::text::sort_strings(kept)
    }

    pub fn get_all_allowed_labels(&self, env: &super::Env, editor: String) -> (r: Vec<String>)
        requires
            self.wf(),
        ensures
            strings_view(r@).to_set() == self.label_to_posts.view().dom().filter(
                |l: Seq<char>| self.labels_allowed(env.current@, editor@, seq![l]),
            ),
            crate::text::texts_sorted(strings_view(r@)),
    {
        self.filtered_labels(env, &self.label_to_posts, &editor)
    }

    pub fn get_all_allowed_proposal_labels(&self, env: &super::Env, editor: String) -> (r: Vec<String>)
        requires
            self.wf(),
        ensures
            strings_view(r@).to_set() == self.label_to_proposals.view().dom().filter(
                |l: Seq<char>| self.labels_allowed(env.current@, editor@, seq![l]),
            ),
            crate::text::texts_sorted(strings_view(r@)),
    {
        self.filtered_labels(env, &self.label_to_proposals, &editor)
    }

    pub fn get_all_allowed_rfp_labels(&self, env: &super::Env, editor: String) -> (r: Vec<String>)
        requires
            self.wf(),
        ensures
            strings_view(r@).to_set() == self.label_to_rfps.view().dom().filter(
                |l: Seq<char>| self.labels_allowed(env.current@, editor@, seq![l]),
            ),
            crate::text::texts_sorted(strings_view(r@)),
    {
        self.filtered_labels(env, &self.label_to_rfps, &editor)
    }
}

} // verus!
