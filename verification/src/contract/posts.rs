//! Posting, editing and liking posts, and reading them back.
use super::labels::{
    clone_strings, edit_labels, add_labels, ids_or_empty, index_add_all, index_after_edit, label_diff, labels_of,
};
use super::{Contract, ContractError, Env, posts_wf};
use crate::access_control::members::{permissions_for, ActionType};
use crate::access_control::rules::strings_view;
use crate::index::strictly_sorted;
use crate::notify::{notify, notify_mentions, text_mentions, Notification, NotifyEntry, NotifyPayload, NotifyValue};
use crate::account::AccountId;
use crate::post::like::{insert_like, likes_after, likes_view, likes_wf, Like};
use crate::post::{body_description, body_is_current, Post, PostBody, PostSnapshot, VersionedPost, ROOT_POST_ID};
use crate::repost::{post_repost_text, post_repost_text_of, FeedPost};
use crate::notify::{social_db_contract, social_db_account_of};
use super::contains_action;
use vstd::prelude::*;

verus! {

/// A post as `add_post` creates it.
pub open spec fn fresh_post(
    p: Post,
    id: u64,
    author: Seq<char>,
    timestamp: u64,
    labels: Vec<String>,
    body: PostBody,
) -> bool {
    &&& p.id == id
    &&& p.author_id@ == author
    &&& p.likes@.len() == 0
    &&& p.snapshot.editor_id@ == author
    &&& p.snapshot.timestamp == timestamp
    &&& p.snapshot.labels == labels
    &&& p.snapshot.body == body
    &&& p.snapshot_history@.len() == 0
}

/// What adding a post sets off: a reply notification to the parent's author or,
/// for a top-level post, an announcement on the feed; and a notification to
/// everyone the post mentions.
pub struct AddPostEffects {
    pub reply: Option<Notification>,
    pub repost: Option<FeedPost>,
    pub mentions: Option<Notification>,
}

/// The children lists after `id` joined those of `parent` and got an empty list of its own.
pub open spec fn children_after_add(m: Map<u64, Vec<u64>>, parent: u64, id: u64, c: Map<u64, Vec<u64>>) -> bool {
    &&& c.dom() == m.dom().insert(id)
    &&& c[parent]@ == m[parent]@.push(id)
    &&& c[id]@.len() == 0
    &&& forall|k: u64| m.dom().contains(k) && k != parent && k != id ==> #[trigger] c[k] == m[k]
}

/// A post reads back as it was added: under the next id, with its author, body
/// and labels, no likes and no history; the posts before it read back as before.
pub proof fn law_post_read_after_add(
    before: Seq<VersionedPost>,
    after: Seq<VersionedPost>,
    author: Seq<char>,
    timestamp: u64,
    labels: Vec<String>,
    body: PostBody,
)
    requires
        before.len() < ROOT_POST_ID,
        after.len() == before.len() + 1,
        after.subrange(0, before.len() as int) == before,
        fresh_post(after[before.len() as int].inner(), before.len() as u64, author, timestamp, labels, body),
    ensures
        after[before.len() as int].inner().id == before.len(),
        after[before.len() as int].inner().author_id@ == author,
        after[before.len() as int].inner().snapshot.body == body,
        after[before.len() as int].inner().snapshot.labels == labels,
        after[before.len() as int].inner().likes@.len() == 0,
        forall|i: int| 0 <= i < before.len() ==> #[trigger] after[i] == before[i],
{
    assert forall|i: int| 0 <= i < before.len() implies #[trigger] after[i] == before[i] by {
        assert(after.subrange(0, before.len() as int)[i] == after[i]);
    }
}

/// The reply tree of `n` posts is consistent: each post that has a parent is
/// listed among that parent's children, each listed child names that parent,
/// the landing page has a list of children, and ids of posts stay below `n`.
pub open spec fn tree_consistent(parents: Map<u64, u64>, children: Map<u64, Vec<u64>>, n: nat) -> bool {
    &&& children.dom().contains(ROOT_POST_ID)
    &&& forall|c: u64| #[trigger] parents.dom().contains(c) ==> c < n && children.dom().contains(parents[c])
        && children[parents[c]]@.contains(c)
    &&& forall|p: u64, i: int|
        children.dom().contains(p) && 0 <= i < children[p]@.len() ==> parents.dom().contains(
            #[trigger] children[p]@[i],
        ) && parents[children[p]@[i]] == p
    &&& forall|p: u64| #[trigger] children.dom().contains(p) ==> p == ROOT_POST_ID || p < n
}

/// A new contract's reply tree is consistent: only the landing page, without replies.
pub proof fn law_new_tree_consistent(parents: Map<u64, u64>, children: Map<u64, Vec<u64>>)
    requires
        parents.is_empty(),
        children.dom() == Set::<u64>::empty().insert(ROOT_POST_ID),
        children[ROOT_POST_ID]@.len() == 0,
    ensures
        tree_consistent(parents, children, 0),
{
}

/// Adding post `id` (the next id) under an existing `parent` keeps the reply
/// tree consistent: the post names its parent and the parent lists the post.
pub proof fn law_add_post_keeps_tree(
    parents: Map<u64, u64>,
    children: Map<u64, Vec<u64>>,
    new_children: Map<u64, Vec<u64>>,
    n: nat,
    parent: u64,
    id: u64,
)
    requires
        tree_consistent(parents, children, n),
        id == n,
        id < ROOT_POST_ID,
        children.dom().contains(parent),
        children_after_add(children, parent, id, new_children),
    ensures
        tree_consistent(parents.insert(id, parent), new_children, n + 1),
        new_children[parent]@.contains(id),
        parents.insert(id, parent)[id] == parent,
{
    let np = parents.insert(id, parent);
    assert(!children.dom().contains(id));
    assert(parent != id);
    assert(new_children[parent]@[new_children[parent]@.len() - 1] == id);
    assert forall|c: u64| #[trigger] np.dom().contains(c) implies c < n + 1 && new_children.dom().contains(np[c])
        && new_children[np[c]]@.contains(c) by {
        if c != id {
            assert(parents.dom().contains(c));
            let p = parents[c];
            let i = choose|i: int| 0 <= i < children[p]@.len() && children[p]@[i] == c;
            if p == parent {
                assert(new_children[p]@[i] == c);
            } else {
                assert(new_children[p] == children[p]);
            }
        }
    }
    assert forall|p: u64, i: int|
        new_children.dom().contains(p) && 0 <= i < new_children[p]@.len() implies np.dom().contains(
            #[trigger] new_children[p]@[i],
        ) && np[new_children[p]@[i]] == p by {
        if p == parent {
            if i < children[p]@.len() {
                assert(new_children[p]@[i] == children[p]@[i]);
                assert(parents.dom().contains(children[p]@[i]));
            }
        } else if p != id {
            assert(new_children[p] == children[p]);
            assert(parents.dom().contains(children[p]@[i]));
        }
    }
}

/// The label index lists, under each label, exactly the posts that carry it.
pub open spec fn label_index_exact(index: Map<Seq<char>, Set<u64>>, posts: Seq<VersionedPost>) -> bool {
    forall|k: Seq<char>, i: u64|
        #![trigger ids_or_empty(index, k).contains(i)]
        #![trigger labels_of(posts[i as int].inner().snapshot.labels@).contains(k)]
        ids_or_empty(index, k).contains(i) <==> (i < posts.len() && labels_of(
            posts[i as int].inner().snapshot.labels@,
        ).contains(k))
}

/// Adding a post with its labels keeps the label index exact.
pub proof fn law_add_post_keeps_label_index(
    index: Map<Seq<char>, Set<u64>>,
    posts: Seq<VersionedPost>,
    new_posts: Seq<VersionedPost>,
    labels: Seq<String>,
    id: u64,
)
    requires
        label_index_exact(index, posts),
        id == posts.len(),
        new_posts.len() == posts.len() + 1,
        new_posts.subrange(0, id as int) == posts,
        new_posts[id as int].inner().snapshot.labels@ == labels,
    ensures
        label_index_exact(index_add_all(index, labels_of(labels), id), new_posts),
{
    let ni = index_add_all(index, labels_of(labels), id);
    assert forall|k: Seq<char>, i: u64|
        ids_or_empty(ni, k).contains(i) <==> (i < new_posts.len() && labels_of(
            new_posts[i as int].inner().snapshot.labels@,
        ).contains(k)) by {
        if i != id {
            if i < posts.len() {
                assert(new_posts[i as int] == new_posts.subrange(0, id as int)[i as int]);
            }
            assert(ids_or_empty(ni, k).contains(i) <==> ids_or_empty(index, k).contains(i));
            assert(ids_or_empty(index, k).contains(i) <==> (i < posts.len() && labels_of(
                posts[i as int].inner().snapshot.labels@,
            ).contains(k)));
        } else {
            assert(!ids_or_empty(index, k).contains(id)) by {
                if ids_or_empty(index, k).contains(id) {
                    assert(id < posts.len());
                }
            }
        }
    }
}

/// Editing a post's labels keeps the label index exact.
pub proof fn law_edit_post_keeps_label_index(
    index: Map<Seq<char>, Set<u64>>,
    posts: Seq<VersionedPost>,
    new_posts: Seq<VersionedPost>,
    labels: Seq<String>,
    id: u64,
)
    requires
        label_index_exact(index, posts),
        id < posts.len(),
        new_posts.len() == posts.len(),
        forall|i: int| 0 <= i < posts.len() && i != id ==> #[trigger] new_posts[i] == posts[i],
        new_posts[id as int].inner().snapshot.labels@ == labels,
    ensures
        label_index_exact(
            index_after_edit(index, labels_of(posts[id as int].inner().snapshot.labels@), labels_of(labels), id),
            new_posts,
        ),
{
    let before = labels_of(posts[id as int].inner().snapshot.labels@);
    let ni = index_after_edit(index, before, labels_of(labels), id);
    assert forall|k: Seq<char>| #[trigger] ids_or_empty(index, k).contains(id) <==> before.contains(k) by {
        assert(ids_or_empty(index, k).contains(id) <==> (id < posts.len() && labels_of(
            posts[id as int].inner().snapshot.labels@,
        ).contains(k)));
    }
    super::labels::law_edit_keeps_index_exact(index, before, labels_of(labels), id);
    assert forall|k: Seq<char>, i: u64|
        ids_or_empty(ni, k).contains(i) <==> (i < new_posts.len() && labels_of(
            new_posts[i as int].inner().snapshot.labels@,
        ).contains(k)) by {
        if i != id {
            assert(ids_or_empty(ni, k).contains(i) <==> ids_or_empty(index, k).contains(i));
            assert(ids_or_empty(index, k).contains(i) <==> (i < posts.len() && labels_of(
                posts[i as int].inner().snapshot.labels@,
            ).contains(k)));
            if i < posts.len() {
                assert(new_posts[i as int] == posts[i as int]);
            }
        } else {
            assert(ids_or_empty(ni, k).contains(id) <==> labels_of(labels).contains(k));
        }
    }
}

/// The first reason for which `add_post` refuses, if any.
pub open spec fn add_post_error(c: Contract, env: Env, parent: u64, labels: Seq<String>, body: PostBody) -> Option<ContractError> {
    if !c.labels_allowed(env.current@, env.predecessor@, strings_view(labels)) {
        Some(ContractError::CannotUseLabels)
    } else if !c.post_to_children.map().dom().contains(parent) {
        Some(ContractError::ParentNotFound)
    } else if !body_is_current(body) {
        Some(ContractError::OutdatedBody)
    } else if parent != ROOT_POST_ID && parent >= c.posts@.len() {
        Some(ContractError::ParentPostNotFound)
    } else {
        None
    }
}

/// `editor` may edit the post: it is the contract itself, the post's author, or
/// its permissions on the post's labels include editing.
pub open spec fn may_edit_post(c: Contract, current: Seq<char>, editor: Seq<char>, p: Post) -> bool {
    ||| editor == current
    ||| editor == p.author_id@
    ||| permissions_for(c.access_control.members_list.view(), editor, strings_view(p.snapshot.labels@)).contains(
        ActionType::EditPost,
    )
}

/// The first reason for which `edit_post` refuses, if any.
pub open spec fn edit_post_error(c: Contract, env: Env, id: u64, labels: Seq<String>) -> Option<ContractError> {
    if id >= c.posts@.len() {
        Some(ContractError::PostNotFound)
    } else if !may_edit_post(c, env.current@, env.predecessor@, c.posts@[id as int].inner()) {
        Some(ContractError::NotAllowedToEditPost)
    } else {
        let before = labels_of(c.posts@[id as int].inner().snapshot.labels@);
        let after = labels_of(labels);
        edit_labels_error(c, env, before, after)
    }
}

/// The label checks of an edit: the editor must be allowed to drop the labels
/// it drops and to add those it adds.
pub open spec fn edit_labels_error(c: Contract, env: Env, before: Set<Seq<char>>, after: Set<Seq<char>>) -> Option<ContractError> {
    if !labels_allowed_set(c, env, before.difference(after)) {
        Some(ContractError::NotAllowedToRemoveLabels)
    } else if !labels_allowed_set(c, env, after.difference(before)) {
        Some(ContractError::NotAllowedToAddLabels)
    } else {
        None
    }
}

/// The caller may use a set of labels (listed in any order).
pub open spec fn labels_allowed_set(c: Contract, env: Env, s: Set<Seq<char>>) -> bool {
    exists|l: Seq<Seq<char>>| #[trigger] l.to_set() == s && c.labels_allowed(env.current@, env.predecessor@, l)
}

impl Contract {
    /// The labels-allowed check depends only on which labels are listed.
    proof fn lemma_labels_allowed_set(&self, env: Env, l: Seq<Seq<char>>)
        ensures
            labels_allowed_set(*self, env, l.to_set()) == self.labels_allowed(env.current@, env.predecessor@, l),
    {
        if labels_allowed_set(*self, env, l.to_set()) {
            let l2 = choose|l2: Seq<Seq<char>>| #[trigger] l2.to_set() == l.to_set() && self.labels_allowed(
                env.current@,
                env.predecessor@,
                l2,
            );
            assert(restricted_labels_eq(self.access_control.rules_list.view(), l, l2)) by {
                lemma_restricted_same(self.access_control.rules_list.view(), l, l2);
            }
            lemma_permissions_same(self.access_control.members_list.view(), env.predecessor@, l, l2);
        }
    }

    /// Checks that the caller may use the labels of `v`.
    pub(crate) fn labels_ok(&self, env: &Env, v: &Vec<String>) -> (r: bool)
        requires
            self.wf(),
        ensures
            r == labels_allowed_set(*self, *env, labels_of(v@)),
    {
        let copy = clone_strings(v);
        proof {
            self.lemma_labels_allowed_set(*env, strings_view(v@));
        }
        self.is_allowed_to_use_labels(env, None, copy)
    }
}

pub open spec fn restricted_labels_eq(
    rules: Map<crate::access_control::rules::RuleView, crate::access_control::rules::VersionedRuleMetadata>,
    a: Seq<Seq<char>>,
    b: Seq<Seq<char>>,
) -> bool {
    crate::access_control::rules::restricted_labels(rules, a) == crate::access_control::rules::restricted_labels(rules, b)
}

/// Which labels are restricted depends only on which labels are listed.
pub proof fn lemma_restricted_same(
    rules: Map<crate::access_control::rules::RuleView, crate::access_control::rules::VersionedRuleMetadata>,
    a: Seq<Seq<char>>,
    b: Seq<Seq<char>>,
)
    requires
        a.to_set() == b.to_set(),
    ensures
        restricted_labels_eq(rules, a, b),
{
    assert forall|x: Seq<char>| a.contains(x) == b.contains(x) by {
        assert(a.to_set().contains(x) == a.contains(x));
        assert(b.to_set().contains(x) == b.contains(x));
        assert(a.to_set().contains(x) == b.to_set().contains(x));
    }
    assert(crate::access_control::rules::restricted_labels(rules, a) =~= crate::access_control::rules::restricted_labels(rules, b));
}

/// The permissions of an account depend only on which labels are listed.
pub proof fn lemma_permissions_same(
    v: Map<crate::access_control::members::MemberView, crate::access_control::members::MemberMetadataView>,
    account: Seq<char>,
    a: Seq<Seq<char>>,
    b: Seq<Seq<char>>,
)
    requires
        a.to_set() == b.to_set(),
    ensures
        permissions_for(v, account, a) == permissions_for(v, account, b),
{
    assert forall|x: Seq<char>| a.contains(x) == b.contains(x) by {
        assert(a.to_set().contains(x) == a.contains(x));
        assert(b.to_set().contains(x) == b.contains(x));
        assert(a.to_set().contains(x) == b.to_set().contains(x));
    }
    assert forall|r: crate::access_control::rules::RuleView| crate::access_control::rules::rule_applies_to_any(r, a)
        == crate::access_control::rules::rule_applies_to_any(r, b) by {
        lemma_applies_any_same(r, a, b);
    }
    assert(permissions_for(v, account, a) =~= permissions_for(v, account, b));
}

proof fn lemma_applies_any_same(r: crate::access_control::rules::RuleView, a: Seq<Seq<char>>, b: Seq<Seq<char>>)
    requires
        forall|x: Seq<char>| a.contains(x) == b.contains(x),
    ensures
        crate::access_control::rules::rule_applies_to_any(r, a) == crate::access_control::rules::rule_applies_to_any(r, b),
{
    if crate::access_control::rules::rule_applies_to_any(r, a) {
        if r != crate::access_control::rules::RuleView::Any {
            let i = choose|i: int| 0 <= i < a.len() && crate::access_control::rules::rule_applies(r, #[trigger] a[i]);
            assert(a.contains(a[i]));
            let j = choose|j: int| 0 <= j < b.len() && b[j] == a[i];
            assert(crate::access_control::rules::rule_applies(r, b[j]));
        }
    }
    if crate::access_control::rules::rule_applies_to_any(r, b) {
        if r != crate::access_control::rules::RuleView::Any {
            let i = choose|i: int| 0 <= i < b.len() && crate::access_control::rules::rule_applies(r, #[trigger] b[i]);
            assert(b.contains(b[i]));
            let j = choose|j: int| 0 <= j < a.len() && a[j] == b[i];
            assert(crate::access_control::rules::rule_applies(r, a[j]));
        }
    }
}

impl Contract {
    /// Adds a post under `parent_id` (the landing page when none) with the
    /// caller as its author. The post gets the next id; it joins the indexes
    /// of its labels and of its author, and the parent's list of children.
    pub fn add_post(&mut self, env: &Env, parent_id: Option<u64>, body: PostBody, labels: Vec<String>) -> (r: Result<AddPostEffects, ContractError>)
        requires
            old(self).wf(),
            old(self).posts@.len() < ROOT_POST_ID,
        ensures
            final(self).wf(),
            ({
                let parent = match parent_id {
                    Some(p) => p,
                    None => ROOT_POST_ID,
                };
                let id = old(self).posts@.len() as u64;
                let err = add_post_error(*old(self), *env, parent, labels@, body);
                &&& r is Err <==> err is Some
                &&& r matches Err(e) ==> err == Some(e) && *final(self) == *old(self)
                &&& r matches Ok(effects) ==> {
                    &&& final(self).posts@.len() == old(self).posts@.len() + 1
                    &&& final(self).posts@.subrange(0, id as int) == old(self).posts@
                    &&& fresh_post(final(self).posts@[id as int].inner(), id, env.predecessor@, env.block_timestamp, labels, body)
                    &&& final(self).label_to_posts.view() == index_add_all(old(self).label_to_posts.view(), labels_of(labels@), id)
                    &&& final(self).authors.view() == old(self).authors.view().insert(
                        env.predecessor@,
                        old(self).authors.ids(env.predecessor@).insert(id),
                    )
                    &&& final(self).post_to_parent.map() == old(self).post_to_parent.map().insert(id, parent)
                    &&& children_after_add(old(self).post_to_children.map(), parent, id, final(self).post_to_children.map())
                    &&& final(self).proposals == old(self).proposals
                    &&& final(self).rfps == old(self).rfps
                    &&& final(self).access_control == old(self).access_control
                    &&& final(self).communities == old(self).communities
                    &&& (parent == ROOT_POST_ID) == (effects.reply is None)
                    &&& (parent == ROOT_POST_ID) == (effects.repost is Some)
                    &&& effects.reply matches Some(n) ==> {
                        &&& n.notifier == env.current
                        &&& n.payload == (NotifyPayload::Single(NotifyEntry {
                            key: old(self).posts@[parent as int].inner().author_id,
                            value: NotifyValue::PostReply { post: parent },
                        }))
                        &&& n.static_gas == env.prepaid_gas / 4
                        &&& n.deposit == env.attached_deposit
                    }
                    &&& effects.repost matches Some(f) ==> {
                        &&& f.social_db@ == social_db_account_of(env.current@)
                        &&& f.contract == env.current
                        &&& f.text@ == post_repost_text_of(env.predecessor@, id, body)
                        &&& f.static_gas == env.prepaid_gas / 2
                        &&& f.deposit == env.attached_deposit
                    }
                    &&& (effects.mentions is None <==> text_mentions(body_description(body)).len() == 0)
                    &&& effects.mentions matches Some(n) ==> {
                        &&& n.notifier == env.current
                        &&& n.payload matches NotifyPayload::List(entries)
                        &&& crate::notify::entry_keys(entries@) == text_mentions(body_description(body))
                        &&& forall|i: int| 0 <= i < entries@.len() ==> (#[trigger] entries@[i]).value == (NotifyValue::PostMention { post: id })
                    }
                }
            }),
    {
        let parent = match parent_id {
            Some(p) => p,
            None => ROOT_POST_ID,
        };
        let id = self.posts.len() as u64;
        let author_id = env.predecessor.clone();
        if !self.is_allowed_to_use_labels(env, Some(author_id.clone()), clone_strings(&labels)) {
            return Err(ContractError::CannotUseLabels);
        }
        let slot = match self.post_to_children.find(&parent) {
            None => {
                return Err(ContractError::ParentNotFound);
            },
            Some(i) => i,
        };
        if !body.is_current() {
            return Err(ContractError::OutdatedBody);
        }
        if parent != ROOT_POST_ID && parent >= self.posts.len() as u64 {
            return Err(ContractError::ParentPostNotFound);
        }
        proof {
            self.post_to_children.lemma_lookup(slot as int);
        }
        let ghost old_self = *self;
        add_labels(&mut self.label_to_posts, &labels, id);
        let desc = body.description();
        let post = Post {
            id,
            author_id: author_id.clone(),
            likes: Vec::new(),
            snapshot: PostSnapshot { editor_id: author_id.clone(), timestamp: env.block_timestamp, labels, body },
            snapshot_history: Vec::new(),
        };
        let reply = if parent != ROOT_POST_ID {
            let parent_author = match &self.posts[parent as usize] {
                VersionedPost::V0(p) => p.author_id.clone(),
            };
            Some(notify(env.current.clone(), parent_author, NotifyValue::PostReply { post: parent }, env.prepaid_gas, env.attached_deposit))
        } else {
            None
        };
        let repost = if parent == ROOT_POST_ID {
            Some(FeedPost {
                social_db: social_db_contract(env.current.as_str()),
                contract: env.current.clone(),
                text: post_repost_text(&post),
                static_gas: env.prepaid_gas / 2,
                deposit: env.attached_deposit,
            })
        } else {
            None
        };
        self.posts.push(VersionedPost::V0(post));
        proof {
            assert forall|i: int| 0 <= i < self.posts@.len() implies likes_wf((#[trigger] self.posts@[i]).inner().likes@) by {
                if i < old_self.posts@.len() {
                    assert(self.posts@[i] == old_self.posts@[i]);
                }
            }
            assert(self.posts@.subrange(0, id as int) =~= old_self.posts@);
        }
        self.post_to_parent.insert(id, parent);
        let mut siblings = crate::index::copy_ids(&self.post_to_children.entries[slot].1);
        siblings.push(id);
        self.post_to_children.set_value(slot, siblings);
        let ghost mid = self.post_to_children.map();
        self.post_to_children.insert(id, Vec::new());
        proof {
            assert(parent != id);
            assert(self.post_to_children.map().dom() =~= old_self.post_to_children.map().dom().insert(id));
        }
        self.authors.insert_id(&author_id, id);
        let mentions = notify_mentions(desc.as_str(), id, env.current.clone(), env.prepaid_gas, env.attached_deposit);
        Ok(AddPostEffects { reply, repost, mentions })
    }
}

/// `new` is `old` after an edit by `editor`: a new current snapshot, the old one
/// appended to the history, and the id, author and likes kept.
pub open spec fn edited_post(old: Post, new: Post, editor: Seq<char>, timestamp: u64, labels: Vec<String>, body: PostBody) -> bool {
    &&& new.id == old.id
    &&& new.author_id == old.author_id
    &&& new.likes == old.likes
    &&& new.snapshot.editor_id@ == editor
    &&& new.snapshot.timestamp == timestamp
    &&& new.snapshot.labels == labels
    &&& new.snapshot.body == body
    &&& new.snapshot_history@ == old.snapshot_history@.push(old.snapshot)
}

impl Contract {
    /// Whether `editor` (the caller when none is given) may edit the post.
    pub fn is_allowed_to_edit(&self, env: &Env, post_id: u64, editor: Option<AccountId>) -> (r: bool)
        requires
            self.wf(),
            post_id < self.posts@.len(),
        ensures
            r == may_edit_post(
                *self,
                env.current@,
                match editor {
                    Some(e) => e@,
                    None => env.predecessor@,
                },
                self.posts@[post_id as int].inner(),
            ),
    {
        let n = self.posts.len();
        let i = post_id as usize;
        let post = match &self.posts[i] {
            VersionedPost::V0(p) => p,
        };
        assert(*post == self.posts@[post_id as int].inner());
        let editor = match editor {
            Some(e) => e,
            None => env.predecessor.clone(),
        };
        if editor == env.current || editor == post.author_id {
            return true;
        }
        let labels = clone_strings(&post.snapshot.labels);
        let actions = self.access_control.members_list.check_permissions(editor, labels);
        contains_action(&actions, ActionType::EditPost)
    }

    /// Checks the label part of an edit from `old_labels` to `new_labels`.
    pub(crate) fn check_label_edit(&self, env: &Env, old_labels: &Vec<String>, new_labels: &Vec<String>) -> (r: Option<ContractError>)
        requires
            self.wf(),
        ensures
            r == edit_labels_error(*self, *env, labels_of(old_labels@), labels_of(new_labels@)),
    {
        let removed = label_diff(old_labels, new_labels);
        let added = label_diff(new_labels, old_labels);
        if !self.labels_ok(env, &removed) {
            return Some(ContractError::NotAllowedToRemoveLabels);
        }
        if !self.labels_ok(env, &added) {
            return Some(ContractError::NotAllowedToAddLabels);
        }
        None
    }

    /// Replaces the body and labels of a post, keeping the previous snapshot in
    /// its history, and moves the post between label indexes; the author is notified.
    pub fn edit_post(&mut self, env: &Env, id: u64, body: PostBody, labels: Vec<String>) -> (r: Result<Notification, ContractError>)
        requires
            old(self).wf(),
        ensures
            final(self).wf(),
            ({
                let err = edit_post_error(*old(self), *env, id, labels@);
                &&& r is Err <==> err is Some
                &&& r matches Err(e) ==> err == Some(e) && *final(self) == *old(self)
                &&& r matches Ok(n) ==> {
                    &&& final(self).posts@.len() == old(self).posts@.len()
                    &&& forall|i: int| 0 <= i < old(self).posts@.len() && i != id ==> #[trigger] final(self).posts@[i] == old(self).posts@[i]
                    &&& edited_post(old(self).posts@[id as int].inner(), final(self).posts@[id as int].inner(), env.predecessor@, env.block_timestamp, labels, body)
                    &&& final(self).label_to_posts.view() == index_after_edit(
                        old(self).label_to_posts.view(),
                        labels_of(old(self).posts@[id as int].inner().snapshot.labels@),
                        labels_of(labels@),
                        id,
                    )
                    &&& final(self).authors == old(self).authors
                    &&& final(self).post_to_parent == old(self).post_to_parent
                    &&& final(self).post_to_children == old(self).post_to_children
                    &&& final(self).proposals == old(self).proposals
                    &&& final(self).rfps == old(self).rfps
                    &&& final(self).access_control == old(self).access_control
                    &&& n.notifier == env.current
                    &&& n.payload == (NotifyPayload::Single(NotifyEntry {
                        key: old(self).posts@[id as int].inner().author_id,
                        value: NotifyValue::PostEdit { post: id },
                    }))
                    &&& n.static_gas == env.prepaid_gas / 4
                    &&& n.deposit == env.attached_deposit
                }
            }),
    {
        if id >= self.posts.len() as u64 {
            return Err(ContractError::PostNotFound);
        }
        if !self.is_allowed_to_edit(env, id, None) {
            return Err(ContractError::NotAllowedToEditPost);
        }
        let idx = id as usize;
        let old_labels = match &self.posts[idx] {
            VersionedPost::V0(p) => clone_strings(&p.snapshot.labels),
        };
        match self.check_label_edit(env, &old_labels, &labels) {
            Some(e) => {
                return Err(e);
            },
            None => {},
        }
        let ghost old_self = *self;
        proof {
            assert(labels_of(old_labels@) == labels_of(old_self.posts@[id as int].inner().snapshot.labels@));
        }
        edit_labels(&mut self.label_to_posts, &old_labels, &labels, id);
        let VersionedPost::V0(mut post) = self.posts.remove(idx);
        let old_snapshot = post.snapshot;
        post.snapshot = PostSnapshot { editor_id: env.predecessor.clone(), timestamp: env.block_timestamp, labels, body };
        post.snapshot_history.push(old_snapshot);
        let post_author = post.author_id.clone();
        self.posts.insert(idx, VersionedPost::V0(post));
        proof {
            assert forall|i: int| 0 <= i < self.posts@.len() implies likes_wf((#[trigger] self.posts@[i]).inner().likes@) by {
                assert(old_self.posts@.contains(old_self.posts@[i]));
                if i != idx {
                    assert(self.posts@[i] == old_self.posts@[i]);
                }
            }
        }
        Ok(notify(env.current.clone(), post_author, NotifyValue::PostEdit { post: id }, env.prepaid_gas, env.attached_deposit))
    }

    /// Records the caller's like on a post (a second like by the same author
    /// changes nothing) and notifies the post's author.
    pub fn add_like(&mut self, env: &Env, post_id: u64) -> (r: Result<Notification, ContractError>)
        requires
            old(self).wf(),
        ensures
            final(self).wf(),
            r is Err <==> post_id >= old(self).posts@.len(),
            r is Err ==> *final(self) == *old(self) && r == Err::<Notification, ContractError>(ContractError::PostNotFound),
            r matches Ok(n) ==> {
                let before = old(self).posts@[post_id as int].inner();
                let after = final(self).posts@[post_id as int].inner();
                &&& final(self).posts@.len() == old(self).posts@.len()
                &&& forall|i: int| 0 <= i < old(self).posts@.len() && i != post_id ==> #[trigger] final(self).posts@[i] == old(self).posts@[i]
                &&& after.id == before.id
                &&& after.author_id == before.author_id
                &&& after.snapshot == before.snapshot
                &&& after.snapshot_history == before.snapshot_history
                &&& likes_view(after.likes@) == likes_after(likes_view(before.likes@), env.predecessor@, env.block_timestamp)
                &&& final(self).label_to_posts == old(self).label_to_posts
                &&& final(self).authors == old(self).authors
                &&& final(self).post_to_parent == old(self).post_to_parent
                &&& final(self).post_to_children == old(self).post_to_children
                &&& final(self).proposals == old(self).proposals
                &&& final(self).rfps == old(self).rfps
                &&& final(self).access_control == old(self).access_control
                &&& n.notifier == env.current
                &&& n.payload == (NotifyPayload::Single(NotifyEntry {
                    key: before.author_id,
                    value: NotifyValue::PostLike { post: post_id },
                }))
                &&& n.static_gas == env.prepaid_gas / 4
                &&& n.deposit == env.attached_deposit
            },
    {
        if post_id >= self.posts.len() as u64 {
            return Err(ContractError::PostNotFound);
        }
        let idx = post_id as usize;
        let ghost old_self = *self;
        let VersionedPost::V0(mut post) = self.posts.remove(idx);
        proof {
            assert(post == old_self.posts@[idx as int].inner());
            assert(likes_wf(post.likes@));
        }
        let post_author = post.author_id.clone();
        insert_like(&mut post.likes, Like { author_id: env.predecessor.clone(), timestamp: env.block_timestamp });
        self.posts.insert(idx, VersionedPost::V0(post));
        proof {
            assert forall|i: int| 0 <= i < self.posts@.len() implies likes_wf((#[trigger] self.posts@[i]).inner().likes@) by {
                if i != idx {
                    assert(self.posts@[i] == old_self.posts@[i]);
                }
            }
        }
        Ok(notify(env.current.clone(), post_author, NotifyValue::PostLike { post: post_id }, env.prepaid_gas, env.attached_deposit))
    }
}

/// The parent a post goes under: the given one, or the landing page.
pub open spec fn parent_or_root(parent_id: Option<u64>) -> u64 {
    match parent_id {
        Some(p) => p,
        None => ROOT_POST_ID,
    }
}

/// Every id of the list names a post.
pub open spec fn all_posts_exist(ids: Seq<u64>, n: nat) -> bool {
    forall|i: int| 0 <= i < ids.len() ==> #[trigger] ids[i] < n
}

/// Statistics about the contract's content.
pub struct Stats {
    pub num_posts: u64,
}

impl Contract {
    /// The posts under `parent_id` (the landing page when none), in the order they were added.
    #[verifier::loop_isolation(false)]
    pub fn get_posts(&self, parent_id: Option<u64>) -> (r: Result<Vec<&VersionedPost>, ContractError>)
        requires
            self.wf(),
        ensures
            !self.post_to_children.map().dom().contains(parent_or_root(parent_id)) ==> r == Err::<Vec<&VersionedPost>, ContractError>(
                ContractError::ParentNotFound,
            ),
            self.post_to_children.map().dom().contains(parent_or_root(parent_id)) ==> (r is Ok <==> all_posts_exist(
                self.post_to_children.map()[parent_or_root(parent_id)]@,
                self.posts@.len(),
            )),
            r is Err && self.post_to_children.map().dom().contains(parent_or_root(parent_id)) ==> r == Err::<
                Vec<&VersionedPost>,
                ContractError,
            >(ContractError::PostNotFound),
            r matches Ok(v) ==> v@.len() == self.post_to_children.map()[parent_or_root(parent_id)]@.len() && forall|i: int|
                0 <= i < v@.len() ==> *(#[trigger] v@[i]) == self.posts@[self.post_to_children.map()[parent_or_root(parent_id)]@[i] as int],
    {
        let parent = match parent_id {
            Some(p) => p,
            None => ROOT_POST_ID,
        };
        let slot = match self.post_to_children.find(&parent) {
            None => {
                return Err(ContractError::ParentNotFound);
            },
            Some(i) => i,
        };
        proof {
            self.post_to_children.lemma_lookup(slot as int);
        }
        let children = &self.post_to_children.entries[slot].1;
        let n = self.posts.len();
        let mut r: Vec<&VersionedPost> = Vec::new();
        let mut i: usize = 0;
        while i < children.len()
            invariant
                n == self.posts@.len(),
                i <= children@.len(),
                r@.len() == i,
                forall|j: int| 0 <= j < i ==> (#[trigger] children@[j]) < n && *r@[j] == self.posts@[children@[j] as int],
            decreases children@.len() - i,
        {
            let id = children[i];
            if id >= n as u64 {
                assert(!(self.post_to_children.map()[parent]@[i as int] < self.posts@.len()));
                return Err(ContractError::PostNotFound);
            }
            r.push(&self.posts[id as usize]);
            i += 1;
        }
        Ok(r)
    }

    /// The post with this id.
    pub fn get_post(&self, post_id: u64) -> (r: &VersionedPost)
        requires
            post_id < self.posts@.len(),
        ensures
            *r == self.posts@[post_id as int],
    {
        let n = self.posts.len();
        &self.posts[post_id as usize]
    }

    /// The ids of all posts, in order.
    pub fn get_all_post_ids(&self) -> (r: Vec<u64>)
        ensures
            r@.len() == self.posts@.len(),
            forall|i: int| 0 <= i < r@.len() ==> r@[i] == i,
    {
        let n = self.posts.len();
        let mut r: Vec<u64> = Vec::new();
        let mut i: usize = 0;
        while i < n
            invariant
                n == self.posts@.len(),
                i <= n,
                r@.len() == i,
                forall|j: int| 0 <= j < i ==> r@[j] == j,
            decreases n - i,
        {
            r.push(i as u64);
            i += 1;
        }
        r
    }

    /// The ids of the replies to a post (to the landing page when none), in order.
    pub fn get_children_ids(&self, post_id: Option<u64>) -> (r: Vec<u64>)
        requires
            self.wf(),
            self.post_to_children.map().dom().contains(
                match post_id {
                    Some(p) => p,
                    None => ROOT_POST_ID,
                },
            ),
        ensures
            r@ == self.post_to_children.map()[match post_id {
                Some(p) => p,
                None => ROOT_POST_ID,
            }]@,
    {
        let key = match post_id {
            Some(p) => p,
            None => ROOT_POST_ID,
        };
        let slot = self.post_to_children.find(&key).unwrap();
        proof {
            self.post_to_children.lemma_lookup(slot as int);
        }
        crate::index::copy_ids(&self.post_to_children.entries[slot].1)
    }

    /// The parent of a post; none for a top-level post.
    pub fn get_parent_id(&self, post_id: u64) -> (r: Option<u64>)
        requires
            self.wf(),
            self.post_to_parent.map().dom().contains(post_id),
        ensures
            r == if self.post_to_parent.map()[post_id] == ROOT_POST_ID {
                None
            } else {
                Some(self.post_to_parent.map()[post_id])
            },
    {
        let slot = self.post_to_parent.find(&post_id).unwrap();
        proof {
            self.post_to_parent.lemma_lookup(slot as int);
        }
        let res = self.post_to_parent.entries[slot].1;
        if res == ROOT_POST_ID {
            None
        } else {
            Some(res)
        }
    }

    /// The ids of the posts by `author`, each once.
    pub fn get_posts_by_author(&self, author: AccountId) -> (r: Vec<u64>)
        requires
            self.wf(),
        ensures
            r@.to_set() == self.authors.ids(author@),
            r@.no_duplicates(),
    {
        self.authors.ids_of(&author)
    }

    /// The ids of the posts with `label`, in increasing order.
    pub fn get_posts_by_label(&self, label: String) -> (r: Vec<u64>)
        requires
            self.wf(),
        ensures
            r@.to_set() == self.label_to_posts.ids(label@),
            strictly_sorted(r@),
    {
        self.label_to_posts.sorted(&label)
    }

    pub fn get_stats(&self) -> (r: Stats)
        ensures
            r.num_posts == self.posts@.len(),
    {
        Stats { num_posts: self.posts.len() as u64 }
    }

    /// The parent of every post that has one, by increasing post id.
    pub fn get_post_to_parent(&self) -> (r: Vec<(u64, u64)>)
        requires
            self.wf(),
        ensures
            forall|i: int| 0 <= i < r@.len() ==> (#[trigger] r@[i]).0 < self.posts@.len()
                && self.post_to_parent.map().dom().contains(r@[i].0) && r@[i].1 == self.post_to_parent.map()[r@[i].0],
            forall|i: int, j: int| 0 <= i < j < r@.len() ==> (#[trigger] r@[i]).0 < (#[trigger] r@[j]).0,
            forall|c: u64| c < self.posts@.len() && #[trigger] self.post_to_parent.map().dom().contains(c) ==> exists|i: int|
                0 <= i < r@.len() && r@[i].0 == c,
    {
        let n = self.posts.len();
        let mut r: Vec<(u64, u64)> = Vec::new();
        let mut c: usize = 0;
        while c < n
            invariant
                self.wf(),
                n == self.posts@.len(),
                c <= n,
                forall|i: int| 0 <= i < r@.len() ==> (#[trigger] r@[i]).0 < c
                    && self.post_to_parent.map().dom().contains(r@[i].0) && r@[i].1 == self.post_to_parent.map()[r@[i].0],
                forall|i: int, j: int| 0 <= i < j < r@.len() ==> (#[trigger] r@[i]).0 < (#[trigger] r@[j]).0,
                forall|x: u64| x < c && #[trigger] self.post_to_parent.map().dom().contains(x) ==> exists|i: int|
                    0 <= i < r@.len() && r@[i].0 == x,
            decreases n - c,
        {
            let key = c as u64;
            match self.post_to_parent.find(&key) {
                Some(slot) => {
                    proof {
                        self.post_to_parent.lemma_lookup(slot as int);
                    }
                    let ghost before = r@;
                    r.push((key, self.post_to_parent.entries[slot].1));
                    proof {
                        assert forall|x: u64| x < c + 1 && #[trigger] self.post_to_parent.map().dom().contains(x) implies exists|i: int|
                            0 <= i < r@.len() && r@[i].0 == x by {
                            if x < c {
                                let i = choose|i: int| 0 <= i < before.len() && before[i].0 == x;
                                assert(r@[i] == before[i]);
                            } else {
                                assert(r@[before.len() as int].0 == x);
                            }
                        }
                    }
                },
                None => {},
            }
            c += 1;
        }
        r
    }

    /// The replies of every post that has a list of them, by increasing post id.
    pub fn get_parent_to_children(&self) -> (r: Vec<(u64, Vec<u64>)>)
        requires
            self.wf(),
        ensures
            forall|i: int| 0 <= i < r@.len() ==> (#[trigger] r@[i]).0 < self.posts@.len()
                && self.post_to_children.map().dom().contains(r@[i].0) && r@[i].1@ == self.post_to_children.map()[r@[i].0]@,
            forall|i: int, j: int| 0 <= i < j < r@.len() ==> (#[trigger] r@[i]).0 < (#[trigger] r@[j]).0,
            forall|c: u64| c < self.posts@.len() && #[trigger] self.post_to_children.map().dom().contains(c) ==> exists|i: int|
                0 <= i < r@.len() && r@[i].0 == c,
    {
        let n = self.posts.len();
        let mut r: Vec<(u64, Vec<u64>)> = Vec::new();
        let mut c: usize = 0;
        while c < n
            invariant
                self.wf(),
                n == self.posts@.len(),
                c <= n,
                forall|i: int| 0 <= i < r@.len() ==> (#[trigger] r@[i]).0 < c
                    && self.post_to_children.map().dom().contains(r@[i].0) && r@[i].1@ == self.post_to_children.map()[r@[i].0]@,
                forall|i: int, j: int| 0 <= i < j < r@.len() ==> (#[trigger] r@[i]).0 < (#[trigger] r@[j]).0,
                forall|x: u64| x < c && #[trigger] self.post_to_children.map().dom().contains(x) ==> exists|i: int|
                    0 <= i < r@.len() && r@[i].0 == x,
            decreases n - c,
        {
            let key = c as u64;
            match self.post_to_children.find(&key) {
                Some(slot) => {
                    proof {
                        self.post_to_children.lemma_lookup(slot as int);
                    }
                    let ghost before = r@;
                    r.push((key, crate::index::copy_ids(&self.post_to_children.entries[slot].1)));
                    proof {
                        assert forall|x: u64| x < c + 1 && #[trigger] self.post_to_children.map().dom().contains(x) implies exists|i: int|
                            0 <= i < r@.len() && r@[i].0 == x by {
                            if x < c {
                                let i = choose|i: int| 0 <= i < before.len() && before[i].0 == x;
                                assert(r@[i] == before[i]);
                            } else {
                                assert(r@[before.len() as int].0 == x);
                            }
                        }
                    }
                },
                None => {},
            }
            c += 1;
        }
        r
    }
}

} // verus!
