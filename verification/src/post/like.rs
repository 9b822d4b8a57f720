//! A like on a post: one per author.
use crate::account::AccountId;
use vstd::prelude::*;

verus! {

pub struct Like {
    pub author_id: AccountId,
    pub timestamp: u64,
}

impl PartialEq for Like {
    /// Two likes are the same like when they have the same author.
    fn eq(&self, other: &Self) -> (r: bool) {
        self.author_id == other.author_id
    }
}

impl vstd::std_specs::cmp::PartialEqSpecImpl for Like {
    open spec fn obeys_eq_spec() -> bool {
        true
    }

    open spec fn eq_spec(&self, other: &Self) -> bool {
        self.author_id@ == other.author_id@
    }
}

impl Eq for Like {}

/// The likes of a post as a map from author to the time of the like.
pub open spec fn likes_view(s: Seq<Like>) -> Map<Seq<char>, u64> {
    Map::new(
        |a: Seq<char>| exists|i: int| 0 <= i < s.len() && #[trigger] s[i].author_id@ == a,
        |a: Seq<char>| s[choose|i: int| 0 <= i < s.len() && #[trigger] s[i].author_id@ == a].timestamp,
    )
}

/// No author likes twice.
pub open spec fn likes_wf(s: Seq<Like>) -> bool {
    forall|i: int, j: int|
        0 <= i < j < s.len() ==> #[trigger] s[i].author_id@ != #[trigger] s[j].author_id@
}

pub proof fn lemma_likes_lookup(s: Seq<Like>, i: int)
    requires
        likes_wf(s),
        0 <= i < s.len(),
    ensures
        likes_view(s).dom().contains(s[i].author_id@),
        likes_view(s)[s[i].author_id@] == s[i].timestamp,
{
    let k = s[i].author_id@;
    let j = choose|j: int| 0 <= j < s.len() && #[trigger] s[j].author_id@ == k;
    if j != i {
        if j < i {
            assert(s[j].author_id@ != s[i].author_id@);
        } else {
            assert(s[i].author_id@ != s[j].author_id@);
        }
    }
}

/// The likes after `author` likes at `timestamp`: an author who already liked
/// keeps the first like.
pub open spec fn likes_after(m: Map<Seq<char>, u64>, author: Seq<char>, timestamp: u64) -> Map<Seq<char>, u64> {
    if m.dom().contains(author) {
        m
    } else {
        m.insert(author, timestamp)
    }
}

/// Liking a post again changes nothing: each author likes at most once.
pub proof fn law_like_idempotent(m: Map<Seq<char>, u64>, author: Seq<char>, first: u64, again: u64)
    ensures
        likes_after(likes_after(m, author, first), author, again) == likes_after(m, author, first),
        likes_after(m, author, first).dom().contains(author),
{
}

/// Adds a like unless its author has already liked, as a set of likes keyed by author does.
pub fn insert_like(likes: &mut Vec<Like>, like: Like)
    requires
        likes_wf(old(likes)@),
    ensures
        likes_wf(final(likes)@),
        likes_view(old(likes)@).dom().contains(like.author_id@) ==> final(likes)@ == old(likes)@,
        !likes_view(old(likes)@).dom().contains(like.author_id@) ==> final(likes)@ == old(likes)@.push(like),
        likes_view(final(likes)@) == likes_after(likes_view(old(likes)@), like.author_id@, like.timestamp),
{
    let ghost s = likes@;
    let mut i: usize = 0;
    while i < likes.len()
        invariant
            likes@ == s,
            likes_wf(s),
            i <= s.len(),
            forall|j: int| 0 <= j < i ==> s[j].author_id@ != like.author_id@,
        decreases s.len() - i,
    {
        if likes[i].author_id == like.author_id {
            assert(likes_view(s).dom().contains(like.author_id@));
            return;
        }
        i += 1;
    }
    let ghost a = like.author_id@;
    let ghost ts = like.timestamp;
    likes.push(like);
    proof {
        let t = likes@;
        assert(!likes_view(s).dom().contains(a));
        assert forall|x: int, y: int| 0 <= x < y < t.len() implies #[trigger] t[x].author_id@ != #[trigger] t[y].author_id@ by {
            if y < s.len() {
                assert(s[x].author_id@ != s[y].author_id@);
            }
        }
        assert forall|k: Seq<char>| #[trigger] likes_view(t).dom().contains(k) == likes_view(s).insert(a, ts).dom().contains(k) by {
            if likes_view(t).dom().contains(k) {
                let j = choose|j: int| 0 <= j < t.len() && #[trigger] t[j].author_id@ == k;
                if j < s.len() {
                    assert(s[j].author_id@ == k);
                }
            }
            if likes_view(s).dom().contains(k) {
                let j = choose|j: int| 0 <= j < s.len() && #[trigger] s[j].author_id@ == k;
                assert(t[j].author_id@ == k);
            }
            if k == a {
                assert(t[s.len() as int].author_id@ == k);
            }
        }
        assert forall|k: Seq<char>| #[trigger] likes_view(t).dom().contains(k) implies likes_view(t)[k] == likes_view(s).insert(a, ts)[k] by {
            let j = choose|j: int| 0 <= j < t.len() && #[trigger] t[j].author_id@ == k;
            lemma_likes_lookup(t, j);
            if j < s.len() {
                assert(t[j] == s[j]);
                lemma_likes_lookup(s, j);
            }
        }
        assert(likes_view(t) =~= likes_view(s).insert(a, ts));
    }
}

} // verus!
