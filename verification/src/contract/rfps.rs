//! Publishing and editing requests for proposals.
use super::labels::{add_labels, clone_strings, edit_labels, ids_or_empty, index_add_all, index_after_edit, labels_of};
use super::posts::edit_labels_error;
use super::proposals::{effective_labels, proposal_edit_done, relabel_error, relabel_failure};
use super::{Contract, ContractError, Env};
use crate::access_control::members::{member_set, Member, MemberView};
use crate::access_control::rules::strings_view;
use crate::access_control::moderators_of;
use crate::account::AccountId;
use crate::index::IdKey;
use crate::notify::{notify_accounts, notify_rfp_subscribers, social_db_contract, social_db_account_of, strings_of, Notification, NotifyPayload, NotifyValue};
use crate::proposal::timeline::approved_state;
use crate::proposal::{body_view, VersionedProposal};
use crate::repost::{rfp_repost_text, rfp_repost_text_of, FeedPost};
use crate::rfp::{rfp_body_view, rfp_subscribers, RFPBodyView, RFPSnapshot, TimelineStatus, VersionedRFP, VersionedRFPBody, RFP};
use vstd::prelude::*;

verus! {

/// The first reason for which `add_rfp` refuses, if any.
pub open spec fn add_rfp_error(c: Contract, env: Env, body: VersionedRFPBody, labels: Seq<String>) -> Option<ContractError> {
    if c.rfps@.len() > u32::MAX {
        Some(ContractError::TooManyRfps)
    } else if !(env.predecessor@ == env.current@ || c.moderator(env.predecessor@)) {
        Some(ContractError::NotAllowedToCreateRfps)
    } else if !(body.latest().timeline is AcceptingSubmissions) {
        Some(ContractError::NotAcceptingSubmissions)
    } else if !c.labels_allowed(env.current@, env.predecessor@, strings_view(labels)) {
        Some(ContractError::CannotUseLabels)
    } else {
        None
    }
}

/// What `add_rfp` sets off: the announcement on the feed, after which the RFP is
/// stored by `set_rfp_block_height_callback`.
pub struct AddRfpEffects {
    pub feed: FeedPost,
    pub callback_gas: u64,
    pub rfp: RFP,
}

/// Some proposal linked to the RFP exists and has been approved.
pub open spec fn has_approved_proposal(c: Contract, linked: Seq<u32>) -> bool {
    exists|k: int|
        0 <= k < linked.len() && linked[k] < c.proposals@.len() && approved_state(
            #[trigger] c.proposals@[linked[k] as int].inner().snapshot.body.latest().timeline,
        )
}

/// The checks of an RFP edit made before anything changes.
pub open spec fn rfp_edit_precheck(c: Contract, env: Env, id: u32, bv: RFPBodyView) -> Option<ContractError> {
    if !(env.predecessor@ == env.current@ || c.moderator(env.predecessor@)) {
        Some(ContractError::NotAllowedToEditRfps)
    } else if id >= c.rfps@.len() {
        Some(ContractError::RfpNotFound)
    } else if bv.timeline is ProposalSelected && !has_approved_proposal(
        c,
        c.rfps@[id as int].inner().snapshot.linked_proposals@,
    ) {
        Some(ContractError::NoApprovedProposal)
    } else {
        None
    }
}

/// `new` is RFP `old` after an edit by the caller: a new snapshot with the given
/// body and labels and the same links, the old block height appended to the history.
pub open spec fn rfp_edited(old: RFP, new: RFP, env: Env, bv: RFPBodyView, labels: Seq<Seq<char>>) -> bool {
    &&& new.id == old.id
    &&& new.author_id == old.author_id
    &&& new.social_db_post_block_height == old.social_db_post_block_height
    &&& new.snapshot_history@ == old.snapshot_history@.push(old.snapshot.block_height)
    &&& new.snapshot.editor_id@ == env.predecessor@
    &&& new.snapshot.timestamp == env.block_timestamp
    &&& new.snapshot.block_height == env.block_height
    &&& strings_view(new.snapshot.labels@) == labels
    &&& rfp_body_view(new.snapshot.body) == bv
    &&& new.snapshot.linked_proposals == old.snapshot.linked_proposals
}

/// What an RFP edit sets off: a notification of each linked proposal's author
/// when the labels changed, and a notification of everyone the RFP concerns.
pub struct EditRfpEffects {
    pub proposal_edits: Vec<Notification>,
    pub subscribers: Option<Notification>,
}

impl Contract {
    /// Publishes an RFP by the caller, who must be the contract itself or a
    /// moderator; the RFP is stored by the callback that follows its announcement.
    pub fn add_rfp(&mut self, env: &Env, body: VersionedRFPBody, labels: Vec<String>) -> (r: Result<AddRfpEffects, ContractError>)
        requires
            old(self).wf(),
        ensures
            final(self).wf(),
            ({
                let err = add_rfp_error(*old(self), *env, body, labels@);
                let id = old(self).rfps@.len() as u32;
                &&& r is Err <==> err is Some
                &&& r matches Err(e) ==> err == Some(e) && *final(self) == *old(self)
                &&& r matches Ok(fx) ==> {
                    &&& final(self).label_to_rfps.view() == index_add_all(old(self).label_to_rfps.view(), labels_of(labels@), id)
                    &&& final(self).rfps == old(self).rfps
                    &&& final(self).proposals == old(self).proposals
                    &&& final(self).posts == old(self).posts
                    &&& final(self).label_to_proposals == old(self).label_to_proposals
                    &&& final(self).label_to_posts == old(self).label_to_posts
                    &&& final(self).access_control == old(self).access_control
                    &&& fx.rfp.id == id
                    &&& fx.rfp.author_id@ == env.predecessor@
                    &&& fx.rfp.social_db_post_block_height == 0
                    &&& fx.rfp.snapshot.editor_id@ == env.predecessor@
                    &&& fx.rfp.snapshot.timestamp == env.block_timestamp
                    &&& fx.rfp.snapshot.block_height == env.block_height
                    &&& fx.rfp.snapshot.labels == labels
                    &&& fx.rfp.snapshot.body == body
                    &&& fx.rfp.snapshot.linked_proposals@.len() == 0
                    &&& fx.rfp.snapshot_history@.len() == 0
                    &&& fx.feed.social_db@ == social_db_account_of(env.current@)
                    &&& fx.feed.contract == env.current
                    &&& fx.feed.text@ == rfp_repost_text_of(id, body.latest().name@, body.latest().summary@)
                    &&& fx.feed.static_gas == env.prepaid_gas / 3
                    &&& fx.feed.deposit == env.attached_deposit
                    &&& fx.callback_gas == env.prepaid_gas / 4
                }
            }),
    {
        if self.rfps.len() > 0xffff_ffffusize {
            return Err(ContractError::TooManyRfps);
        }
        let id = self.rfps.len() as u32;
        let author_id = env.predecessor.clone();
        if !self.is_allowed_to_write_rfps(env, author_id.clone()) {
            return Err(ContractError::NotAllowedToCreateRfps);
        }
        if !body.timeline().is_accepting_submissions() {
            return Err(ContractError::NotAcceptingSubmissions);
        }
        if !self.is_allowed_to_use_labels(env, Some(author_id.clone()), clone_strings(&labels)) {
            return Err(ContractError::CannotUseLabels);
        }
        add_labels(&mut self.label_to_rfps, &labels, id);
        let rfp = RFP {
            id,
            author_id: author_id.clone(),
            social_db_post_block_height: 0,
            snapshot: RFPSnapshot {
                editor_id: author_id,
                timestamp: env.block_timestamp,
                block_height: env.block_height,
                labels,
                body,
                linked_proposals: Vec::new(),
            },
            snapshot_history: Vec::new(),
        };
        let text = rfp_repost_text(&rfp);
        let feed = FeedPost {
            social_db: social_db_contract(env.current.as_str()),
            contract: env.current.clone(),
            text,
            static_gas: env.prepaid_gas / 3,
            deposit: env.attached_deposit,
        };
        Ok(AddRfpEffects { feed, callback_gas: env.prepaid_gas / 4, rfp })
    }

    /// Stores a published RFP, with the block height of its announcement.
    pub fn set_rfp_block_height_callback(&mut self, rfp: RFP, block_height: u64) -> (r: super::proposals::BlockHeightCallbackRetValue)
        requires
            old(self).wf(),
        ensures
            final(self).wf(),
            r.proposal_id == rfp.id,
            final(self).rfps@.len() == old(self).rfps@.len() + 1,
            final(self).rfps@.drop_last() == old(self).rfps@,
            final(self).rfps@.last() == VersionedRFP::V0(RFP { social_db_post_block_height: block_height, ..rfp }),
            final(self).posts == old(self).posts,
            final(self).proposals == old(self).proposals,
            final(self).label_to_rfps == old(self).label_to_rfps,
            final(self).access_control == old(self).access_control,
    {
        let mut rfp = rfp;
        rfp.social_db_post_block_height = block_height;
        let id = rfp.id;
        self.rfps.push(VersionedRFP::V0(rfp));
        assert(self.rfps@.drop_last() =~= old(self).rfps@);
        super::proposals::BlockHeightCallbackRetValue { proposal_id: id }
    }

    /// Whether some linked proposal exists and has been approved.
    fn any_approved(&self, linked: &Vec<u32>) -> (r: bool)
        ensures
            r == has_approved_proposal(*self, linked@),
    {
        let mut k: usize = 0;
        while k < linked.len()
            invariant
                k <= linked@.len(),
                forall|j: int| 0 <= j < k ==> !(linked@[j] < self.proposals@.len() && approved_state(
                    #[trigger] self.proposals@[linked@[j] as int].inner().snapshot.body.latest().timeline,
                )),
            decreases linked@.len() - k,
        {
            let pid = linked[k];
            if (pid as usize) < self.proposals.len() {
                let approved = match &self.proposals[pid as usize] {
                    VersionedProposal::V0(p) => p.snapshot.body.timeline().was_approved(),
                };
                assert(approved == approved_state(self.proposals@[linked@[k as int] as int].inner().snapshot.body.latest().timeline));
                if approved {
                    return true;
                }
            }
            k += 1;
        }
        false
    }

    /// The accounts among the hub moderators.
    pub fn get_moderator_accounts(&self) -> (r: Vec<AccountId>)
        requires
            self.wf(),
        ensures
            strings_view(r@).to_set() == Set::new(
                |a: Seq<char>| moderators_of(self.access_control.members_list.view()).contains(MemberView::Account(a)),
            ),
    {
        let moderators = self.access_control.members_list.get_moderators();
        let mut r: Vec<AccountId> = Vec::new();
        let mut i: usize = 0;
        while i < moderators.len()
            invariant
                i <= moderators@.len(),
                member_set(moderators@) == moderators_of(self.access_control.members_list.view()),
                forall|a: Seq<char>| strings_view(r@).to_set().contains(a) <==> exists|j: int| 0 <= j < i && #[trigger] moderators@[j]@ == MemberView::Account(a),
            decreases moderators@.len() - i,
        {
            let ghost before = r@;
            match &moderators[i] {
                Member::Account(a) => {
                    r.push(a.clone());
                    proof {
                        assert(strings_view(r@) =~= strings_view(before).push(a@));
                        assert forall|x: Seq<char>| strings_view(r@).to_set().contains(x) <==> exists|j: int| 0 <= j < i + 1 && #[trigger] moderators@[j]@ == MemberView::Account(x) by {
                            if strings_view(r@).to_set().contains(x) {
                                if x == a@ {
                                    assert(moderators@[i as int]@ == MemberView::Account(x));
                                } else {
                                    assert(strings_view(before).contains(x));
                                    assert(strings_view(before).to_set().contains(x));
                                }
                            }
                            if exists|j: int| 0 <= j < i + 1 && #[trigger] moderators@[j]@ == MemberView::Account(x) {
                                let j = choose|j: int| 0 <= j < i + 1 && #[trigger] moderators@[j]@ == MemberView::Account(x);
                                if j < i {
                                    assert(strings_view(before).to_set().contains(x));
                                    assert(strings_view(before).contains(x));
                                    let q = choose|q: int| 0 <= q < strings_view(before).len() && strings_view(before)[q] == x;
                                    assert(strings_view(r@)[q] == x);
                                } else {
                                    assert(x == a@);
                                    assert(strings_view(r@)[before.len() as int] == a@);
                                    assert(strings_view(r@).contains(x));
                                }
                            }
                        }
                    }
                },
                Member::Team(_) => {
                    proof {
                        assert forall|x: Seq<char>| strings_view(r@).to_set().contains(x) <==> exists|j: int| 0 <= j < i + 1 && #[trigger] moderators@[j]@ == MemberView::Account(x) by {
                            if exists|j: int| 0 <= j < i + 1 && #[trigger] moderators@[j]@ == MemberView::Account(x) {
                                let j = choose|j: int| 0 <= j < i + 1 && #[trigger] moderators@[j]@ == MemberView::Account(x);
                                assert(j < i);
                            }
                        }
                    }
                },
            }
            i += 1;
        }
        proof {
            assert forall|a: Seq<char>| strings_view(r@).to_set().contains(a) == moderators_of(self.access_control.members_list.view()).contains(MemberView::Account(a)) by {
                if moderators_of(self.access_control.members_list.view()).contains(MemberView::Account(a)) {
                    assert(member_set(moderators@).contains(MemberView::Account(a)));
                }
            }
            assert(strings_view(r@).to_set() =~= Set::new(
                |a: Seq<char>| moderators_of(self.access_control.members_list.view()).contains(MemberView::Account(a)),
            ));
        }
        r
    }
}

/// Every linked proposal now carries the labels it takes from its RFP (or the
/// given labels when it is linked to none).
pub open spec fn linked_relabelled(c: Contract, linked: Seq<u32>, labels: Seq<Seq<char>>) -> bool {
    forall|k: int|
        0 <= k < linked.len() ==> (#[trigger] linked[k]) < c.proposals@.len() && strings_view(
            c.proposals@[linked[k] as int].inner().snapshot.labels@,
        ) == effective_labels(c, body_view(c.proposals@[linked[k] as int].inner().snapshot.body), labels)
}

/// The people an RFP with body content `bv` concerns.
pub open spec fn rfp_subscribers_of(bv: RFPBodyView) -> Seq<Seq<char>> {
    crate::notify::text_mentions(bv.description) + crate::notify::text_mentions(bv.summary)
}

/// The moderators that are accounts.
pub open spec fn moderator_accounts(c: Contract) -> Set<Seq<char>> {
    Set::new(|a: Seq<char>| moderators_of(c.access_control.members_list.view()).contains(MemberView::Account(a)))
}

/// Whether `x` is listed under label `k` after its labels went from `before`
/// to `after`, given the index `m` it was listed in before.
pub open spec fn listed_after_edit(
    m: Map<Seq<char>, Set<u32>>,
    before: Set<Seq<char>>,
    after: Set<Seq<char>>,
    k: Seq<char>,
    x: u32,
) -> bool {
    (ids_or_empty(m, k).contains(x) && !before.difference(after).contains(k)) || after.difference(before).contains(k)
}

/// The proposal label index after the linked proposals were relabelled: each
/// linked proposal moved from its old labels to its new ones, the others stay.
pub open spec fn proposals_relisted(old: Contract, new: Contract, linked: Seq<u32>) -> bool {
    forall|k: Seq<char>, x: u32|
        #[trigger] ids_or_empty(new.label_to_proposals.view(), k).contains(x) <==> if linked.contains(x) {
            listed_after_edit(
                old.label_to_proposals.view(),
                labels_of(old.proposals@[x as int].inner().snapshot.labels@),
                strings_view(new.proposals@[x as int].inner().snapshot.labels@).to_set(),
                k,
                x,
            )
        } else {
            ids_or_empty(old.label_to_proposals.view(), k).contains(x)
        }
}

/// What editing RFP `id` into a body with content `bv` and the given labels
/// leads to. The checks made before anything changes decide the first error:
/// the caller's rights and the RFP's state, then (when the labels change) the
/// relabelling of each linked proposal, checked as a proposal edit, then that
/// every dropped label is indexed. A refused edit changes nothing.
pub open spec fn rfp_edit_outcome(
    old: Contract,
    new: Contract,
    env: Env,
    id: u32,
    bv: RFPBodyView,
    labels: Seq<Seq<char>>,
    r: Result<EditRfpEffects, ContractError>,
) -> bool {
    let pre = rfp_edit_precheck(old, env, id, bv);
    let old_rfp = old.rfps@[id as int].inner();
    let relabel = labels_of(old_rfp.snapshot.labels@) != labels.to_set();
    let linked = old_rfp.snapshot.linked_proposals@;
    let removed = labels_of(old_rfp.snapshot.labels@).difference(labels.to_set());
    let fail = if relabel {
        relabel_failure(old, env, id, labels, linked)
    } else {
        None
    };
    let indexed = removed.subset_of(old.label_to_rfps.view().dom());
    &&& pre is Some ==> r == Err::<EditRfpEffects, ContractError>(pre->0) && new == old
    &&& pre is None && fail is Some ==> r == Err::<EditRfpEffects, ContractError>(fail->0) && new == old
    &&& pre is None && fail is None && !indexed ==> r == Err::<EditRfpEffects, ContractError>(
        ContractError::LabelNotIndexed,
    ) && new == old
    &&& pre is None && fail is None && indexed ==> r is Ok
    &&& r matches Ok(fx) ==> {
        &&& new.rfps@.len() == old.rfps@.len()
        &&& forall|i: int| 0 <= i < old.rfps@.len() && i != id ==> #[trigger] new.rfps@[i] == old.rfps@[i]
        &&& rfp_edited(old_rfp, new.rfps@[id as int].inner(), env, bv, labels)
        &&& new.label_to_rfps.view() == index_after_edit(
            old.label_to_rfps.view(),
            labels_of(old_rfp.snapshot.labels@),
            labels.to_set(),
            id,
        )
        &&& relabel ==> linked_relabelled(new, linked, labels)
        &&& relabel ==> proposals_relisted(old, new, linked)
        &&& relabel ==> fx.proposal_edits@.len() == linked.to_set().len()
        &&& !relabel ==> new.proposals == old.proposals && new.label_to_proposals == old.label_to_proposals
            && fx.proposal_edits@.len() == 0
        &&& new.posts == old.posts
        &&& new.access_control == old.access_control
        &&& new.label_to_posts == old.label_to_posts
        &&& (fx.subscribers is None) == (rfp_subscribers_of(bv).len() == 0 && moderator_accounts(old).is_empty())
        &&& fx.subscribers matches Some(n) ==> {
            &&& n.notifier == env.current
            &&& n.static_gas == env.prepaid_gas / 4
            &&& n.deposit == env.attached_deposit
            &&& n.payload matches NotifyPayload::List(entries)
            &&& crate::notify::entry_keys(entries@).subrange(0, rfp_subscribers_of(bv).len() as int) == rfp_subscribers_of(bv)
            &&& crate::notify::entry_keys(entries@).subrange(rfp_subscribers_of(bv).len() as int, entries@.len() as int).to_set()
                == moderator_accounts(old)
            &&& forall|i: int| 0 <= i < entries@.len() ==> crate::notify::same_value(
                #[trigger] entries@[i].value,
                NotifyValue::RfpMention { rfp: old_rfp.id, widget_account: env.current, notifier: env.current },
            )
        }
    }
}

/// The first refusal is that of the proposal at `k` when all before it pass.
proof fn lemma_relabel_failure_at(c: Contract, env: Env, rfp_id: u32, labels: Seq<Seq<char>>, linked: Seq<u32>, k: int)
    requires
        0 <= k < linked.len(),
        forall|j: int| 0 <= j < k ==> relabel_error(c, env, rfp_id, labels, #[trigger] linked[j]) is None,
        relabel_error(c, env, rfp_id, labels, linked[k]) is Some,
    ensures
        relabel_failure(c, env, rfp_id, labels, linked) == relabel_error(c, env, rfp_id, labels, linked[k]),
    decreases k,
{
    if k > 0 {
        assert(relabel_error(c, env, rfp_id, labels, linked[0]) is None);
        assert forall|j: int| 0 <= j < k - 1 implies relabel_error(c, env, rfp_id, labels, #[trigger] linked.drop_first()[j]) is None by {
            assert(linked.drop_first()[j] == linked[j + 1]);
        }
        lemma_relabel_failure_at(c, env, rfp_id, labels, linked.drop_first(), k - 1);
    }
}

impl Contract {
    /// Edits an RFP: a new snapshot with the given body and labels. When the
    /// labels change, every linked proposal is relabelled; then the RFP moves
    /// between label indexes and everyone it concerns, moderators included, is
    /// notified. Every check is made before anything changes.
    #[verifier::loop_isolation(false)]
    #[verifier::rlimit(40)]
    pub fn edit_rfp_internal(&mut self, env: &Env, id: u32, body: VersionedRFPBody, labels: Vec<String>) -> (r: Result<EditRfpEffects, ContractError>)
        requires
            old(self).wf(),
        ensures
            final(self).wf(),
            rfp_edit_outcome(*old(self), *final(self), *env, id, rfp_body_view(body), strings_view(labels@), r),
    {
        if !self.is_allowed_to_write_rfps(env, env.predecessor.clone()) {
            return Err(ContractError::NotAllowedToEditRfps);
        }
        if id as usize >= self.rfps.len() {
            return Err(ContractError::RfpNotFound);
        }
        let idx = id as usize;
        let (linked, old_labels) = match &self.rfps[idx] {
            VersionedRFP::V0(x) => (crate::index::copy_ids(&x.snapshot.linked_proposals), clone_strings(&x.snapshot.labels)),
        };
        assert(linked@ == self.rfps@[id as int].inner().snapshot.linked_proposals@);
        assert(labels_of(old_labels@) == labels_of(self.rfps@[id as int].inner().snapshot.labels@));
        if body.timeline().is_proposal_selected() && !self.any_approved(&linked) {
            return Err(ContractError::NoApprovedProposal);
        }
        let ghost old_self = *self;
        let ghost lv = strings_view(labels@);
        let new_labels = clone_strings(&labels);
        assert(labels_of(new_labels@) == strings_view(labels@).to_set());
        let removed = super::labels::label_diff(&old_labels, &new_labels);
        let added = super::labels::label_diff(&new_labels, &old_labels);
        let relabel = removed.len() > 0 || added.len() > 0;
        proof {
            let a = labels_of(old_labels@);
            let b = labels_of(new_labels@);
            if removed.len() > 0 {
                assert(labels_of(removed@).contains(strings_view(removed@)[0]));
                assert(a != b);
            } else if added.len() > 0 {
                assert(labels_of(added@).contains(strings_view(added@)[0]));
                assert(a != b);
            } else {
                assert forall|x: Seq<char>| a.contains(x) == b.contains(x) by {
                    if a.contains(x) && !b.contains(x) {
                        assert(a.difference(b).contains(x));
                        assert(labels_of(removed@).contains(x));
                        let q = choose|q: int| 0 <= q < strings_view(removed@).len() && strings_view(removed@)[q] == x;
                    }
                    if b.contains(x) && !a.contains(x) {
                        assert(b.difference(a).contains(x));
                        assert(labels_of(added@).contains(x));
                        let q = choose|q: int| 0 <= q < strings_view(added@).len() && strings_view(added@)[q] == x;
                    }
                }
                assert(a =~= b);
            }
        }
        if relabel {
            let mut k: usize = 0;
            while k < linked.len()
                invariant
                    *self == old_self,
                    self.wf(),
                    k <= linked@.len(),
                    strings_view(new_labels@) == lv,
                    forall|j: int| 0 <= j < k ==> relabel_error(old_self, *env, id, lv, #[trigger] linked@[j]) is None,
                decreases linked@.len() - k,
            {
                match self.relabel_check(env, id, &new_labels, linked[k]) {
                    Some(e) => {
                        proof {
                            lemma_relabel_failure_at(old_self, *env, id, lv, linked@, k as int);
                        }
                        return Err(e);
                    },
                    None => {},
                }
                k += 1;
            }
            proof {
                super::proposals::lemma_relabel_failure(old_self, *env, id, lv, linked@);
            }
        }
        if !super::labels::all_indexed(&self.label_to_rfps, &removed) {
            return Err(ContractError::LabelNotIndexed);
        }
        let VersionedRFP::V0(mut rfp) = self.rfps.remove(idx);
        rfp.snapshot_history.push(rfp.snapshot.block_height);
        let snapshot = rfp.snapshot;
        rfp.snapshot = RFPSnapshot {
            editor_id: env.predecessor.clone(),
            timestamp: env.block_timestamp,
            block_height: env.block_height,
            labels,
            body,
            linked_proposals: snapshot.linked_proposals,
        };
        self.rfps.insert(idx, VersionedRFP::V0(rfp));
        edit_labels(&mut self.label_to_rfps, &old_labels, &new_labels, id);
        let ghost after_rfp = *self;
        assert(self.rfps@ =~= old_self.rfps@.update(id as int, self.rfps@[id as int]));
        let mut proposal_edits: Vec<Notification> = Vec::new();
        if relabel {
            let ulinked = crate::index::sorted_ids(&linked);
            assert forall|j: int| 0 <= j < ulinked@.len() implies relabel_error(old_self, *env, id, lv, #[trigger] ulinked@[j]) is None by {
                assert(ulinked@.to_set().contains(ulinked@[j]));
                let q = choose|q: int| 0 <= q < linked@.len() && linked@[q] == ulinked@[j];
            }
            let mut k: usize = 0;
            while k < ulinked.len()
                invariant
                    self.wf(),
                    k <= ulinked@.len(),
                    crate::index::strictly_sorted(ulinked@),
                    ulinked@.to_set() == linked@.to_set(),
                    strings_view(new_labels@) == lv,
                    self.rfps@ == after_rfp.rfps@,
                    self.posts == after_rfp.posts,
                    self.access_control == after_rfp.access_control,
                    self.label_to_posts == after_rfp.label_to_posts,
                    self.label_to_rfps == after_rfp.label_to_rfps,
                    self.proposal_categories == old_self.proposal_categories,
                    self.proposals@.len() == old_self.proposals@.len(),
                    forall|j: int| k <= j < ulinked@.len() ==> self.proposals@[#[trigger] ulinked@[j] as int] == old_self.proposals@[ulinked@[j] as int],
                    forall|j: int| 0 <= j < ulinked@.len() ==> relabel_error(old_self, *env, id, lv, #[trigger] ulinked@[j]) is None,
                    old_self.label_to_proposals.view().dom().subset_of(self.label_to_proposals.view().dom()),
                    proposal_edits@.len() == k,
                    linked_relabelled(*self, ulinked@.subrange(0, k as int), lv),
                    proposals_relisted(old_self, *self, ulinked@.subrange(0, k as int)),
                decreases ulinked@.len() - k,
            {
                let pid = ulinked[k];
                let ghost before = *self;
                proof {
                    assert(relabel_error(old_self, *env, id, lv, pid) is None);
                    assert(self.rfps@[id as int] == after_rfp.rfps@[id as int]);
                    super::proposals::lemma_relabel_frame(old_self, *self, *env, id, lv, pid);
                }
                match self.update_proposal_labels(env, pid, clone_strings(&new_labels)) {
                    Err(e) => {
                        return Err(e);
                    },
                    Ok(n) => {
                        proposal_edits.push(n);
                    },
                }
                proof {
                    assert(self.rfps@ =~= before.rfps@);
                    assert(before.label_to_proposals.view().dom().subset_of(self.label_to_proposals.view().dom()));
                    assert forall|j: int| k + 1 <= j < ulinked@.len() implies self.proposals@[#[trigger] ulinked@[j] as int] == old_self.proposals@[ulinked@[j] as int] by {
                        assert(ulinked@[k as int].rank() < ulinked@[j].rank());
                    }
                    let sub = ulinked@.subrange(0, k + 1);
                    let prev = ulinked@.subrange(0, k as int);
                    assert(!prev.contains(pid)) by {
                        if prev.contains(pid) {
                            let q = choose|q: int| 0 <= q < prev.len() && prev[q] == pid;
                            assert(ulinked@[q].rank() < ulinked@[k as int].rank());
                        }
                    }
                    assert forall|l: Seq<char>, x: u32|
                        #[trigger] ids_or_empty(self.label_to_proposals.view(), l).contains(x) <==> if sub.contains(x) {
                            listed_after_edit(
                                old_self.label_to_proposals.view(),
                                labels_of(old_self.proposals@[x as int].inner().snapshot.labels@),
                                strings_view(self.proposals@[x as int].inner().snapshot.labels@).to_set(),
                                l,
                                x,
                            )
                        } else {
                            ids_or_empty(old_self.label_to_proposals.view(), l).contains(x)
                        } by {
                        assert(sub.contains(x) <==> prev.contains(x) || x == pid) by {
                            if sub.contains(x) {
                                let q = choose|q: int| 0 <= q < sub.len() && sub[q] == x;
                                if q < k {
                                    assert(prev[q] == x);
                                }
                            }
                            if prev.contains(x) {
                                let q = choose|q: int| 0 <= q < prev.len() && prev[q] == x;
                                assert(sub[q] == x);
                            }
                            if x == pid {
                                assert(sub[k as int] == x);
                            }
                        }
                        if x != pid && prev.contains(x) {
                            let q = choose|q: int| 0 <= q < prev.len() && prev[q] == x;
                            assert(x < self.proposals@.len()) by {
                                assert(prev[q] == ulinked@[q]);
                            }
                            assert(self.proposals@[x as int] == before.proposals@[x as int]);
                        }
                        assert(ids_or_empty(before.label_to_proposals.view(), l).contains(pid)
                            == ids_or_empty(old_self.label_to_proposals.view(), l).contains(pid));
                    }
                    assert forall|j: int| 0 <= j < sub.len() implies (#[trigger] sub[j]) < self.proposals@.len() && strings_view(
                        self.proposals@[sub[j] as int].inner().snapshot.labels@,
                    ) == effective_labels(*self, body_view(self.proposals@[sub[j] as int].inner().snapshot.body), lv) by {
                        if sub[j] != pid {
                            assert(sub[j] == ulinked@.subrange(0, k as int)[j]);
                            assert(self.proposals@[sub[j] as int] == before.proposals@[sub[j] as int]);
                        }
                    }
                }
                k += 1;
            }
            proof {
                assert(ulinked@.subrange(0, ulinked@.len() as int) =~= ulinked@);
                assert forall|q: int| 0 <= q < linked@.len() implies (#[trigger] linked@[q]) < self.proposals@.len() && strings_view(
                    self.proposals@[linked@[q] as int].inner().snapshot.labels@,
                ) == effective_labels(*self, body_view(self.proposals@[linked@[q] as int].inner().snapshot.body), lv) by {
                    assert(linked@.to_set().contains(linked@[q]));
                    let j = choose|j: int| 0 <= j < ulinked@.len() && ulinked@[j] == linked@[q];
                    assert(ulinked@.subrange(0, ulinked@.len() as int)[j] == ulinked@[j]);
                }
                assert(ulinked@.no_duplicates()) by {
                    assert forall|i: int, j: int| 0 <= i < ulinked@.len() && 0 <= j < ulinked@.len() && i != j implies ulinked@[i] != ulinked@[j] by {
                        if i < j {
                            assert(ulinked@[i].rank() < ulinked@[j].rank());
                        } else {
                            assert(ulinked@[j].rank() < ulinked@[i].rank());
                        }
                    }
                }
                ulinked@.unique_seq_to_set();
                assert forall|x: u32| ulinked@.contains(x) <==> linked@.contains(x) by {
                    assert(ulinked@.to_set().contains(x) == ulinked@.contains(x));
                    assert(linked@.to_set().contains(x) == linked@.contains(x));
                }
                assert(proposals_relisted(old_self, *self, linked@));
            }
        }
        let mods = self.get_moderator_accounts();
        let notification = match &self.rfps[idx] {
            VersionedRFP::V0(x) => notify_rfp_subscribers(env, x, &mods),
        };
        proof {
            let subs = rfp_subscribers_of(rfp_body_view(body));
            let n_subs = subs.len();
            assert(self.rfps@[id as int] == after_rfp.rfps@[id as int]);
            assert(self.rfps@[id as int].inner().snapshot.body == body);
            assert(crate::rfp::rfp_subscribers(body.latest()) == subs);
            if notification is Some {
                let entries = notification->Some_0.payload->List_0;
                let keys = crate::notify::entry_keys(entries@);
                assert(keys == subs + strings_view(mods@));
                assert(keys.len() == entries@.len());
                assert(crate::notify::entry_keys(entries@).subrange(0, n_subs as int) =~= subs);
                assert(crate::notify::entry_keys(entries@).subrange(n_subs as int, entries@.len() as int) =~= strings_view(mods@));
            }
            if mods@.len() > 0 {
                assert(strings_view(mods@).to_set().contains(strings_view(mods@)[0]));
            } else {
                assert(strings_view(mods@).to_set() =~= Set::<Seq<char>>::empty());
            }
        }
        Ok(EditRfpEffects { proposal_edits, subscribers: notification })
    }
}

impl Contract {
    pub fn edit_rfp(&mut self, env: &Env, id: u32, body: VersionedRFPBody, labels: Vec<String>) -> (r: Result<EditRfpEffects, ContractError>)
        requires
            old(self).wf(),
        ensures
            final(self).wf(),
            rfp_edit_outcome(*old(self), *final(self), *env, id, rfp_body_view(body), strings_view(labels@), r),
    {
        self.edit_rfp_internal(env, id, body, labels)
    }

    /// Moves an RFP to another timeline state, keeping the rest of its body and its labels.
    pub fn edit_rfp_timeline(&mut self, env: &Env, id: u32, timeline: TimelineStatus) -> (r: Result<EditRfpEffects, ContractError>)
        requires
            old(self).wf(),
        ensures
            final(self).wf(),
            id >= old(self).rfps@.len() ==> r == Err::<EditRfpEffects, ContractError>(ContractError::RfpNotFound)
                && *final(self) == *old(self),
            id < old(self).rfps@.len() ==> rfp_edit_outcome(
                *old(self),
                *final(self),
                *env,
                id,
                RFPBodyView { timeline, ..rfp_body_view(old(self).rfps@[id as int].inner().snapshot.body) },
                strings_view(old(self).rfps@[id as int].inner().snapshot.labels@),
                r,
            ),
    {
        if id as usize >= self.rfps.len() {
            return Err(ContractError::RfpNotFound);
        }
        let (body, labels) = match &self.rfps[id as usize] {
            VersionedRFP::V0(x) => (x.snapshot.body.with_timeline(timeline), clone_strings(&x.snapshot.labels)),
        };
        self.edit_rfp_internal(env, id, body, labels)
    }

    pub fn get_rfps(&self) -> (r: &Vec<VersionedRFP>)
        ensures
            *r == self.rfps,
    {
        &self.rfps
    }

    pub fn get_rfp(&self, rfp_id: u32) -> (r: &VersionedRFP)
        requires
            rfp_id < self.rfps@.len(),
        ensures
            *r == self.rfps@[rfp_id as int],
    {
        &self.rfps[rfp_id as usize]
    }

    /// The positions of all stored RFPs, in order.
    pub fn get_all_rfp_ids(&self) -> (r: Vec<u32>)
        requires
            self.rfps@.len() <= u32::MAX + 1,
        ensures
            r@.len() == self.rfps@.len(),
            forall|i: int| 0 <= i < r@.len() ==> r@[i] == i,
    {
        let n = self.rfps.len();
        let mut r: Vec<u32> = Vec::new();
        let mut i: usize = 0;
        while i < n
            invariant
                n == self.rfps@.len(),
                n <= u32::MAX + 1,
                i <= n,
                r@.len() == i,
                forall|j: int| 0 <= j < i ==> r@[j] == j,
            decreases n - i,
        {
            r.push(i as u32);
            i += 1;
        }
        r
    }

    /// The ids of the RFPs with `label`, in increasing order.
    pub fn get_rfps_by_label(&self, label: String) -> (r: Vec<u32>)
        requires
            self.wf(),
        ensures
            r@.to_set() == self.label_to_rfps.ids(label@),
            crate::index::strictly_sorted(r@),
    {
        self.label_to_rfps.sorted(&label)
    }

    /// The proposals linked to the RFP.
    pub fn get_linked_proposals_in_rfp(&self, rfp_id: u32) -> (r: Vec<u32>)
        requires
            rfp_id < self.rfps@.len(),
        ensures
            r@ == self.rfps@[rfp_id as int].inner().snapshot.linked_proposals@,
    {
        match &self.rfps[rfp_id as usize] {
            VersionedRFP::V0(x) => crate::index::copy_ids(&x.snapshot.linked_proposals),
        }
    }
}

} // verus!
