//! Submitting and editing proposals, and their links to RFPs.
use super::labels::{add_labels, clone_strings, edit_labels, has_label, index_add_all, index_after_edit, labels_of};
use super::posts::edit_labels_error;
use super::{contains_action, Contract, ContractError, Env};
use crate::access_control::members::{permissions_for, ActionType};
use crate::access_control::rules::strings_view;
use crate::account::AccountId;
use crate::index::contains_id;
use crate::notify::{
    notify, notify_accounts, social_db_contract, social_db_account_of, strings_of, Notification, NotifyEntry,
    NotifyPayload, NotifyValue,
};
use crate::proposal::timeline::TimelineStatus;
use crate::proposal::timeline::{timeline_view, TimelineView};
use crate::proposal::{
    body_view, proposal_subscribers, BodyView, Proposal, ProposalSnapshot, VersionedProposal, VersionedProposalBody,
};
use crate::repost::{proposal_repost_text, proposal_repost_text_of, FeedPost};
use crate::rfp::{LinkedProposalChangeOperation, RFPSnapshot, VersionedRFP, RFP};
use vstd::prelude::*;

verus! {

/// `editor` may edit the proposal: it is the contract itself, the author, or its
/// permissions on the proposal's labels include editing.
pub open spec fn may_edit_proposal(c: Contract, current: Seq<char>, editor: Seq<char>, p: Proposal) -> bool {
    ||| editor == current
    ||| editor == p.author_id@
    ||| permissions_for(c.access_control.members_list.view(), editor, strings_view(p.snapshot.labels@)).contains(
        ActionType::EditPost,
    )
}

/// Whether a proposal may be linked to or unlinked from the RFP: it must exist,
/// and unless the caller may write RFPs it must be accepting submissions.
pub open spec fn link_error(c: Contract, env: Env, rfp: Option<u32>) -> Option<ContractError> {
    match rfp {
        None => None,
        Some(r) => if r >= c.rfps@.len() {
            Some(ContractError::RfpNotFound)
        } else if !(c.rfps@[r as int].inner().snapshot.body.latest().timeline is AcceptingSubmissions) && !(
        env.predecessor@ == env.current@ || c.moderator(env.predecessor@)) {
            Some(ContractError::RfpClosedForLinking)
        } else {
            None
        },
    }
}

/// The timeline may go from `cur` to `new`: moderators and the contract itself may
/// make any change; others may only keep a draft a draft, submit it for review
/// (with nothing reviewed yet), or cancel a draft or a proposal under review.
pub open spec fn timeline_change_allowed(c: Contract, env: Env, cur: TimelineView, new: TimelineView) -> bool {
    ||| c.moderator(env.predecessor@)
    ||| env.predecessor@ == env.current@
    ||| cur is Draft && ((new matches TimelineView::Review(s) && !s.sponsor_requested_review
        && !s.reviewer_completed_attestation) || new is Draft)
    ||| (cur is Draft || cur is Review) && new is Cancelled
}

/// Whoever may edit a proposal may cancel it while it is a draft or under review:
/// such an edit is never refused for its timeline change. Without moderator
/// rights (and other than the contract itself), nobody may move a proposal that
/// is no longer a draft anywhere but to cancelled.
pub proof fn law_cancel_draft_or_review(c: Contract, env: Env, id: u32, bv: BodyView, labels: Seq<Seq<char>>)
    ensures
        ({
            let cur = body_view(c.proposals@[id as int].inner().snapshot.body).timeline;
            id < c.proposals@.len() && (cur is Draft || cur is Review) && bv.timeline is Cancelled
                ==> proposal_edit_error(c, env, id, bv, labels) != Some(ContractError::OnlyDraftToReview)
        }),
        forall|cur: TimelineView, new: TimelineView|
            (cur is Draft || cur is Review) && new is Cancelled ==> #[trigger] timeline_change_allowed(c, env, cur, new),
        forall|cur: TimelineView, new: TimelineView|
            !c.moderator(env.predecessor@) && env.predecessor@ != env.current@ && !(cur is Draft) && !(new is Cancelled)
                ==> !#[trigger] timeline_change_allowed(c, env, cur, new),
{
}

/// The category is one of the allowed ones.
pub open spec fn category_known(c: Contract, category: Seq<char>) -> bool {
    strings_view(c.proposal_categories@).contains(category)
}

/// The labels a proposal ends up with: those of its RFP when it is linked to one,
/// the given ones otherwise.
pub open spec fn effective_labels(c: Contract, bv: BodyView, labels: Seq<Seq<char>>) -> Seq<Seq<char>> {
    match bv.linked_rfp {
        Some(r) => strings_view(c.rfps@[r as int].inner().snapshot.labels@),
        None => labels,
    }
}

/// The first reason for which editing proposal `id` into a body with content
/// `bv` and the given labels refuses, if any.
pub open spec fn proposal_edit_error(
    c: Contract,
    env: Env,
    id: u32,
    bv: BodyView,
    labels: Seq<Seq<char>>,
) -> Option<ContractError> {
    proposal_edit_error_for(c, env, id, bv, effective_labels(c, bv, labels))
}

/// The first reason for which editing proposal `id` into a body with content
/// `bv` refuses, if any, when the proposal is to end up with labels `eff`.
pub open spec fn proposal_edit_error_for(
    c: Contract,
    env: Env,
    id: u32,
    bv: BodyView,
    eff: Seq<Seq<char>>,
) -> Option<ContractError> {
    if id >= c.proposals@.len() {
        Some(ContractError::ProposalNotFound)
    } else {
        let p = c.proposals@[id as int].inner();
        let old_bv = body_view(p.snapshot.body);
        let new_rfp = bv.linked_rfp;
        let old_rfp = old_bv.linked_rfp;
        if !may_edit_proposal(c, env.current@, env.predecessor@, p) {
            Some(ContractError::NotAllowedToEditProposal)
        } else if new_rfp != old_rfp && link_error(c, env, new_rfp) is Some {
            link_error(c, env, new_rfp)
        } else if new_rfp != old_rfp && link_error(c, env, old_rfp) is Some {
            link_error(c, env, old_rfp)
        } else if new_rfp is Some && new_rfp->0 >= c.rfps@.len() {
            Some(ContractError::RfpNotFound)
        } else if !timeline_change_allowed(c, env, old_bv.timeline, bv.timeline) {
            Some(ContractError::OnlyDraftToReview)
        } else if !(bv.timeline is Draft || bv.timeline is Review || bv.timeline is Cancelled
            || bv.supervisor is Some) {
            Some(ContractError::SupervisorRequired)
        } else if !category_known(c, bv.category) {
            Some(ContractError::UnknownCategory)
        } else {
            edit_labels_error(c, env, labels_of(p.snapshot.labels@), eff.to_set())
        }
    }
}

/// Why relabelling proposal `pid` refuses, if it does, when the labels of RFP
/// `rfp_id` become `labels`: it is checked as an edit by the caller that keeps
/// the proposal's body and gives it the labels of its RFP (or `labels`).
pub open spec fn relabel_error(c: Contract, env: Env, rfp_id: u32, labels: Seq<Seq<char>>, pid: u32) -> Option<ContractError> {
    if pid >= c.proposals@.len() {
        Some(ContractError::ProposalNotFound)
    } else {
        let bv = body_view(c.proposals@[pid as int].inner().snapshot.body);
        let eff = match bv.linked_rfp {
            Some(r) => if r == rfp_id {
                labels
            } else {
                strings_view(c.rfps@[r as int].inner().snapshot.labels@)
            },
            None => labels,
        };
        proposal_edit_error_for(c, env, pid, bv, eff)
    }
}

/// The first refusal among the relabellings of the proposals `linked`, in order.
pub open spec fn relabel_failure(c: Contract, env: Env, rfp_id: u32, labels: Seq<Seq<char>>, linked: Seq<u32>) -> Option<ContractError>
    decreases linked.len(),
{
    if linked.len() == 0 {
        None
    } else {
        match relabel_error(c, env, rfp_id, labels, linked[0]) {
            Some(e) => Some(e),
            None => relabel_failure(c, env, rfp_id, labels, linked.drop_first()),
        }
    }
}

/// No relabelling refuses exactly when none of them does, and otherwise the
/// first refusal is that of some proposal after which all passed.
pub proof fn lemma_relabel_failure(c: Contract, env: Env, rfp_id: u32, labels: Seq<Seq<char>>, linked: Seq<u32>)
    ensures
        relabel_failure(c, env, rfp_id, labels, linked) is None <==> forall|k: int|
            0 <= k < linked.len() ==> relabel_error(c, env, rfp_id, labels, #[trigger] linked[k]) is None,
    decreases linked.len(),
{
    if linked.len() > 0 {
        lemma_relabel_failure(c, env, rfp_id, labels, linked.drop_first());
        if relabel_error(c, env, rfp_id, labels, linked[0]) is None {
            assert forall|k: int| 0 <= k < linked.len() && (forall|j: int|
                0 <= j < linked.drop_first().len() ==> relabel_error(c, env, rfp_id, labels, #[trigger] linked.drop_first()[j]) is None)
                implies relabel_error(c, env, rfp_id, labels, #[trigger] linked[k]) is None by {
                if k > 0 {
                    assert(linked[k] == linked.drop_first()[k - 1]);
                }
            }
            assert forall|j: int| 0 <= j < linked.drop_first().len() && (forall|k: int|
                0 <= k < linked.len() ==> relabel_error(c, env, rfp_id, labels, #[trigger] linked[k]) is None)
                implies relabel_error(c, env, rfp_id, labels, #[trigger] linked.drop_first()[j]) is None by {
                assert(linked.drop_first()[j] == linked[j + 1]);
            }
        }
    }
}

/// A relabelling that passes its checks on one state passes them on a later
/// state that differs only in other proposals, in the labels of RFP `rfp_id`
/// (now `labels`) and in labels added to the proposal label index.
pub proof fn lemma_relabel_frame(old: Contract, s: Contract, env: Env, rfp_id: u32, labels: Seq<Seq<char>>, pid: u32)
    requires
        relabel_error(old, env, rfp_id, labels, pid) is None,
        s.proposals@.len() == old.proposals@.len(),
        s.proposals@[pid as int] == old.proposals@[pid as int],
        s.access_control == old.access_control,
        s.proposal_categories == old.proposal_categories,
        s.rfps@.len() == old.rfps@.len(),
        forall|r: int| 0 <= r < old.rfps@.len() && r != rfp_id ==> #[trigger] s.rfps@[r] == old.rfps@[r],
        rfp_id < s.rfps@.len(),
        strings_view(s.rfps@[rfp_id as int].inner().snapshot.labels@) == labels,
        old.label_to_proposals.view().dom().subset_of(s.label_to_proposals.view().dom()),
    ensures
        proposal_edit_error(s, env, pid, body_view(s.proposals@[pid as int].inner().snapshot.body), labels) is None,
{
    let p = old.proposals@[pid as int].inner();
    let bv = body_view(p.snapshot.body);
    assert(s.moderator(env.predecessor@) == old.moderator(env.predecessor@));
    assert(effective_labels(s, bv, labels) == match bv.linked_rfp {
        Some(r) => if r == rfp_id {
            labels
        } else {
            strings_view(old.rfps@[r as int].inner().snapshot.labels@)
        },
        None => labels,
    });
    let eff = effective_labels(s, bv, labels);
    let before = labels_of(p.snapshot.labels@);
    assert forall|l: Seq<Seq<char>>| s.labels_allowed(env.current@, env.predecessor@, l) == old.labels_allowed(
        env.current@,
        env.predecessor@,
        l,
    ) by {}
    assert(crate::contract::posts::labels_allowed_set(s, env, before.difference(eff.to_set()))
        == crate::contract::posts::labels_allowed_set(old, env, before.difference(eff.to_set())));
    assert(crate::contract::posts::labels_allowed_set(s, env, eff.to_set().difference(before))
        == crate::contract::posts::labels_allowed_set(old, env, eff.to_set().difference(before)));
}

/// `new` is the RFP `old` after the proposal `pid` was linked to it (`add`) or
/// unlinked from it: a new snapshot by the caller that differs only in its links.
pub open spec fn rfp_relinked(old: RFP, new: RFP, env: Env, add: bool, pid: u32) -> bool {
    &&& new.id == old.id
    &&& new.author_id == old.author_id
    &&& new.social_db_post_block_height == old.social_db_post_block_height
    &&& new.snapshot_history@ == old.snapshot_history@.push(old.snapshot.block_height)
    &&& new.snapshot.editor_id@ == env.predecessor@
    &&& new.snapshot.timestamp == env.block_timestamp
    &&& new.snapshot.block_height == env.block_height
    &&& new.snapshot.labels == old.snapshot.labels
    &&& new.snapshot.body == old.snapshot.body
    &&& new.snapshot.linked_proposals@.to_set() == if add {
        old.snapshot.linked_proposals@.to_set().insert(pid)
    } else {
        old.snapshot.linked_proposals@.to_set().remove(pid)
    }
}

/// The RFPs after proposal `pid` moved from `old_rfp` to `new_rfp` (nothing moves
/// when they are the same).
pub open spec fn rfps_after_link(
    old: Seq<VersionedRFP>,
    new: Seq<VersionedRFP>,
    env: Env,
    pid: u32,
    old_rfp: Option<u32>,
    new_rfp: Option<u32>,
) -> bool {
    &&& new.len() == old.len()
    &&& forall|i: int|
        0 <= i < old.len() && !(old_rfp != new_rfp && (old_rfp == Some(i as u32) || new_rfp == Some(i as u32)))
            ==> #[trigger] new[i] == old[i]
    &&& old_rfp != new_rfp && old_rfp is Some ==> rfp_relinked(
        old[old_rfp->0 as int].inner(),
        new[old_rfp->0 as int].inner(),
        env,
        false,
        pid,
    )
    &&& old_rfp != new_rfp && new_rfp is Some ==> rfp_relinked(
        old[new_rfp->0 as int].inner(),
        new[new_rfp->0 as int].inner(),
        env,
        true,
        pid,
    )
}

/// `new` is proposal `old` after an edit by the caller: a new current snapshot
/// with the given body and labels, the old one appended to the history.
pub open spec fn proposal_edited(
    old: Proposal,
    new: Proposal,
    env: Env,
    bv: BodyView,
    labels: Seq<Seq<char>>,
) -> bool {
    &&& new.id == old.id
    &&& new.author_id == old.author_id
    &&& new.social_db_post_block_height == old.social_db_post_block_height
    &&& new.snapshot.editor_id@ == env.predecessor@
    &&& new.snapshot.timestamp == env.block_timestamp
    &&& strings_view(new.snapshot.labels@) == labels
    &&& body_view(new.snapshot.body) == bv
    &&& new.snapshot_history@ == old.snapshot_history@.push(old.snapshot)
}

/// What `add_proposal` sets off: the announcement on the feed, after which the
/// proposal is stored (by `set_block_height_callback`), then the notification of
/// everyone the proposal concerns.
pub struct AddProposalEffects {
    pub feed: FeedPost,
    /// Gas for the callback that stores the proposal.
    pub callback_gas: u64,
    /// The proposal that the callback stores.
    pub proposal: Proposal,
    pub subscribers: Option<Notification>,
}

pub struct BlockHeightCallbackRetValue {
    pub proposal_id: u32,
}

impl Contract {
    /// Whether `editor` (the caller when none is given) may edit the proposal.
    pub fn is_allowed_to_edit_proposal(&self, env: &Env, proposal_id: u32, editor: Option<AccountId>) -> (r: bool)
        requires
            self.wf(),
            proposal_id < self.proposals@.len(),
        ensures
            r == may_edit_proposal(
                *self,
                env.current@,
                match editor {
                    Some(e) => e@,
                    None => env.predecessor@,
                },
                self.proposals@[proposal_id as int].inner(),
            ),
    {
        let n = self.proposals.len();
        let i = proposal_id as usize;
        let proposal = match &self.proposals[i] {
            VersionedProposal::V0(p) => p,
        };
        let editor = match editor {
            Some(e) => e,
            None => env.predecessor.clone(),
        };
        if editor == env.current || editor == proposal.author_id {
            return true;
        }
        let labels = clone_strings(&proposal.snapshot.labels);
        let actions = self.access_control.members_list.check_permissions(editor, labels);
        contains_action(&actions, ActionType::EditPost)
    }

    /// Whether the category is one of the allowed ones.
    pub fn has_category(&self, category: &String) -> (r: bool)
        ensures
            r == category_known(*self, category@),
    {
        has_label(&self.proposal_categories, category)
    }

    fn link_check(&self, env: &Env, rfp: Option<u32>) -> (r: Option<ContractError>)
        requires
            self.wf(),
        ensures
            r == link_error(*self, *env, rfp),
    {
        match rfp {
            None => None,
            Some(r) => {
                if r as usize >= self.rfps.len() {
                    return Some(ContractError::RfpNotFound);
                }
                let accepting = match &self.rfps[r as usize] {
                    VersionedRFP::V0(x) => x.snapshot.body.timeline().is_accepting_submissions(),
                };
                if !accepting && !self.is_allowed_to_write_rfps(env, env.predecessor.clone()) {
                    return Some(ContractError::RfpClosedForLinking);
                }
                None
            },
        }
    }

    fn timeline_check(&self, env: &Env, cur: &TimelineStatus, new: &TimelineStatus) -> (r: bool)
        requires
            self.wf(),
        ensures
            r == timeline_change_allowed(*self, *env, timeline_view(*cur), timeline_view(*new)),
    {
        self.has_moderator(env.predecessor.clone()) || env.predecessor == env.current || cur.is_draft() && (
        new.is_empty_review() || new.is_draft()) || cur.can_be_cancelled() && new.is_cancelled()
    }

    /// Runs every check of a proposal edit; on success gives the labels the
    /// proposal ends up with.
    fn check_proposal_edit(
        &self,
        env: &Env,
        id: u32,
        body: &VersionedProposalBody,
        labels: &Vec<String>,
    ) -> (r: Result<Vec<String>, ContractError>)
        requires
            self.wf(),
        ensures
            match r {
                Ok(eff) => proposal_edit_error(*self, *env, id, body_view(*body), strings_view(labels@)) is None
                    && strings_view(eff@) == effective_labels(*self, body_view(*body), strings_view(labels@)),
                Err(e) => proposal_edit_error(*self, *env, id, body_view(*body), strings_view(labels@)) == Some(e),
            },
    {
        if id as usize >= self.proposals.len() {
            return Err(ContractError::ProposalNotFound);
        }
        if !self.is_allowed_to_edit_proposal(env, id, None) {
            return Err(ContractError::NotAllowedToEditProposal);
        }
        let p = match &self.proposals[id as usize] {
            VersionedProposal::V0(p) => p,
        };
        let new_rfp = body.linked_rfp();
        let old_rfp = p.snapshot.body.linked_rfp();
        if new_rfp != old_rfp {
            match self.link_check(env, new_rfp) {
                Some(e) => {
                    return Err(e);
                },
                None => {},
            }
            match self.link_check(env, old_rfp) {
                Some(e) => {
                    return Err(e);
                },
                None => {},
            }
        }
        let eff = match new_rfp {
            Some(r) => {
                if r as usize >= self.rfps.len() {
                    return Err(ContractError::RfpNotFound);
                }
                match &self.rfps[r as usize] {
                    VersionedRFP::V0(x) => clone_strings(&x.snapshot.labels),
                }
            },
            None => clone_strings(labels),
        };
        if !self.timeline_check(env, p.snapshot.body.timeline(), body.timeline()) {
            return Err(ContractError::OnlyDraftToReview);
        }
        let t = body.timeline();
        if !(t.is_draft() || t.is_review() || t.is_cancelled() || body.has_supervisor()) {
            return Err(ContractError::SupervisorRequired);
        }
        if !self.has_category(body.category()) {
            return Err(ContractError::UnknownCategory);
        }
        let old_labels = clone_strings(&p.snapshot.labels);
        proof {
            assert(strings_view(eff@).to_set() == labels_of(eff@));
        }
        match self.check_label_edit(env, &old_labels, &eff) {
            Some(e) => Err(e),
            None => Ok(eff),
        }
    }

    /// The checks of relabelling proposal `pid` when the labels of RFP `rfp_id`
    /// become `labels`, made before anything changes.
    pub(crate) fn relabel_check(&self, env: &Env, rfp_id: u32, labels: &Vec<String>, pid: u32) -> (r: Option<ContractError>)
        requires
            self.wf(),
        ensures
            r == relabel_error(*self, *env, rfp_id, strings_view(labels@), pid),
    {
        if pid as usize >= self.proposals.len() {
            return Some(ContractError::ProposalNotFound);
        }
        if !self.is_allowed_to_edit_proposal(env, pid, None) {
            return Some(ContractError::NotAllowedToEditProposal);
        }
        let p = match &self.proposals[pid as usize] {
            VersionedProposal::V0(p) => p,
        };
        let body = &p.snapshot.body;
        let eff = match body.linked_rfp() {
            Some(r) => {
                if r as usize >= self.rfps.len() {
                    return Some(ContractError::RfpNotFound);
                }
                if r == rfp_id {
                    clone_strings(labels)
                } else {
                    match &self.rfps[r as usize] {
                        VersionedRFP::V0(x) => clone_strings(&x.snapshot.labels),
                    }
                }
            },
            None => clone_strings(labels),
        };
        if !self.timeline_check(env, body.timeline(), body.timeline()) {
            return Some(ContractError::OnlyDraftToReview);
        }
        let t = body.timeline();
        if !(t.is_draft() || t.is_review() || t.is_cancelled() || body.has_supervisor()) {
            return Some(ContractError::SupervisorRequired);
        }
        if !self.has_category(body.category()) {
            return Some(ContractError::UnknownCategory);
        }
        let old_labels = clone_strings(&p.snapshot.labels);
        proof {
            assert(strings_view(eff@).to_set() == labels_of(eff@));
        }
        self.check_label_edit(env, &old_labels, &eff)
    }

    /// Links proposal `pid` to the RFP or unlinks it, as a new snapshot of the RFP.
    fn change_linked_proposal_in_rfp(&mut self, env: &Env, rfp_id: u32, pid: u32, op: LinkedProposalChangeOperation)
        requires
            old(self).wf(),
            rfp_id < old(self).rfps@.len(),
        ensures
            final(self).wf(),
            final(self).rfps@ == old(self).rfps@.update(rfp_id as int, final(self).rfps@[rfp_id as int]),
            rfp_relinked(
                old(self).rfps@[rfp_id as int].inner(),
                final(self).rfps@[rfp_id as int].inner(),
                *env,
                op == LinkedProposalChangeOperation::Add,
                pid,
            ),
            final(self).posts == old(self).posts,
            final(self).proposals == old(self).proposals,
            final(self).label_to_posts == old(self).label_to_posts,
            final(self).label_to_proposals == old(self).label_to_proposals,
            final(self).label_to_rfps == old(self).label_to_rfps,
            final(self).author_proposals == old(self).author_proposals,
            final(self).authors == old(self).authors,
            final(self).post_to_parent == old(self).post_to_parent,
            final(self).post_to_children == old(self).post_to_children,
            final(self).access_control == old(self).access_control,
            final(self).proposal_categories == old(self).proposal_categories,
            final(self).communities == old(self).communities,
            final(self).available_addons == old(self).available_addons,
            final(self).featured_communities == old(self).featured_communities,
            final(self).change_log == old(self).change_log,
    {
        let idx = rfp_id as usize;
        let VersionedRFP::V0(mut rfp) = self.rfps.remove(idx);
        let ghost before = rfp;
        let mut linked = crate::index::copy_ids(&rfp.snapshot.linked_proposals);
        match op {
            LinkedProposalChangeOperation::Add => {
                if !contains_id(&linked, &pid) {
                    linked.push(pid);
                    proof {
                        before.snapshot.linked_proposals@.lemma_push_to_set_commute(pid);
                    }
                } else {
                    assert(linked@.to_set().insert(pid) =~= linked@.to_set());
                }
            },
            LinkedProposalChangeOperation::Remove => {
                linked = without_id(&linked, pid);
            },
        }
        rfp.snapshot_history.push(rfp.snapshot.block_height);
        let snapshot = rfp.snapshot;
        rfp.snapshot = RFPSnapshot {
            editor_id: env.predecessor.clone(),
            timestamp: env.block_timestamp,
            block_height: env.block_height,
            labels: snapshot.labels,
            body: snapshot.body,
            linked_proposals: linked,
        };
        self.rfps.insert(idx, VersionedRFP::V0(rfp));
        proof {
            assert(self.rfps@ =~= old(self).rfps@.update(rfp_id as int, self.rfps@[rfp_id as int]));
        }
    }
}

/// `v` without any occurrence of `id`.
pub fn without_id(v: &Vec<u32>, id: u32) -> (r: Vec<u32>)
    ensures
        r@.to_set() == v@.to_set().remove(id),
{
    let mut r: Vec<u32> = Vec::new();
    let mut i: usize = 0;
    while i < v.len()
        invariant
            i <= v@.len(),
            r@.to_set() == v@.subrange(0, i as int).to_set().remove(id),
        decreases v@.len() - i,
    {
        proof {
            assert(v@.subrange(0, i + 1) =~= v@.subrange(0, i as int).push(v@[i as int]));
            v@.subrange(0, i as int).lemma_push_to_set_commute(v@[i as int]);
        }
        if v[i] != id {
            let ghost before = r@;
            r.push(v[i]);
            proof {
                before.lemma_push_to_set_commute(v@[i as int]);
                assert(r@.to_set() =~= v@.subrange(0, i + 1).to_set().remove(id));
            }
        } else {
            proof {
                assert(r@.to_set() =~= v@.subrange(0, i + 1).to_set().remove(id));
            }
        }
        i += 1;
    }
    proof {
        assert(v@.subrange(0, v@.len() as int) =~= v@);
    }
    r
}

/// The state after editing proposal `id` into a body with content `bv` and the
/// given labels, for an edit that passed its checks.
pub open spec fn proposal_edit_done(old: Contract, new: Contract, env: Env, id: u32, bv: BodyView, labels: Seq<Seq<char>>) -> bool {
    let p = old.proposals@[id as int].inner();
    let eff = effective_labels(old, bv, labels);
    &&& new.wf()
    &&& new.proposals@.len() == old.proposals@.len()
    &&& forall|i: int| 0 <= i < old.proposals@.len() && i != id ==> #[trigger] new.proposals@[i] == old.proposals@[i]
    &&& proposal_edited(p, new.proposals@[id as int].inner(), env, bv, eff)
    &&& rfps_after_link(old.rfps@, new.rfps@, env, id, body_view(p.snapshot.body).linked_rfp, bv.linked_rfp)
    &&& new.label_to_proposals.view() == index_after_edit(
        old.label_to_proposals.view(),
        labels_of(p.snapshot.labels@),
        eff.to_set(),
        id,
    )
    &&& new.posts == old.posts
    &&& new.label_to_posts == old.label_to_posts
    &&& new.label_to_rfps == old.label_to_rfps
    &&& new.author_proposals == old.author_proposals
    &&& new.access_control == old.access_control
    &&& new.proposal_categories == old.proposal_categories
    &&& new.communities == old.communities
    &&& new.available_addons == old.available_addons
}

/// The notification of a proposal's author that it was edited by the caller.
pub open spec fn edit_notification(n: Notification, env: Env, author: String, id: u32) -> bool {
    &&& n.notifier == env.current
    &&& n.static_gas == env.prepaid_gas / 4
    &&& n.deposit == env.attached_deposit
    &&& n.payload matches NotifyPayload::Single(entry)
    &&& entry.key@ == author@
    &&& entry.value matches NotifyValue::ProposalEdit { proposal, widget_account, notifier }
    &&& proposal == id && widget_account@ == env.current@ && notifier@ == env.predecessor@
}

impl Contract {
    /// Edits proposal `id`: checks that the caller may make this change, moves
    /// the proposal's link from its old RFP to its new one, takes the labels of
    /// the linked RFP if any, records a new snapshot, updates the label index,
    /// and notifies the author.
    pub fn edit_proposal_internal(
        &mut self,
        env: &Env,
        id: u32,
        body: VersionedProposalBody,
        labels: Vec<String>,
    ) -> (r: Result<Notification, ContractError>)
        requires
            old(self).wf(),
        ensures
            final(self).wf(),
            ({
                let err = proposal_edit_error(*old(self), *env, id, body_view(body), strings_view(labels@));
                &&& r is Err <==> err is Some
                &&& r matches Err(e) ==> err == Some(e) && *final(self) == *old(self)
                &&& r matches Ok(n) ==> proposal_edit_done(
                    *old(self),
                    *final(self),
                    *env,
                    id,
                    body_view(body),
                    strings_view(labels@),
                ) && edit_notification(n, *env, old(self).proposals@[id as int].inner().author_id, id)
            }),
    {
        let eff = match self.check_proposal_edit(env, id, &body, &labels) {
            Err(e) => {
                return Err(e);
            },
            Ok(eff) => eff,
        };
        let ghost old_self = *self;
        let idx = id as usize;
        let (old_rfp, old_labels) = match &self.proposals[idx] {
            VersionedProposal::V0(p) => (p.snapshot.body.linked_rfp(), clone_strings(&p.snapshot.labels)),
        };
        let new_rfp = body.linked_rfp();
        if new_rfp != old_rfp {
            match old_rfp {
                Some(o) => {
                    self.change_linked_proposal_in_rfp(env, o, id, LinkedProposalChangeOperation::Remove);
                },
                None => {},
            }
            let ghost mid = self.rfps@;
            match new_rfp {
                Some(n) => {
                    self.change_linked_proposal_in_rfp(env, n, id, LinkedProposalChangeOperation::Add);
                },
                None => {},
            }
        }
        proof {
            assert(labels_of(old_labels@) == labels_of(old_self.proposals@[id as int].inner().snapshot.labels@));
            assert(labels_of(eff@) == effective_labels(old_self, body_view(body), strings_view(labels@)).to_set());
        }
        edit_labels(&mut self.label_to_proposals, &old_labels, &eff, id);
        let VersionedProposal::V0(mut proposal) = self.proposals.remove(idx);
        let old_snapshot = proposal.snapshot;
        proposal.snapshot = ProposalSnapshot {
            editor_id: env.predecessor.clone(),
            timestamp: env.block_timestamp,
            labels: eff,
            body,
        };
        proposal.snapshot_history.push(old_snapshot);
        let author = proposal.author_id.clone();
        self.proposals.insert(idx, VersionedProposal::V0(proposal));
        proof {
            assert forall|i: int| 0 <= i < old_self.proposals@.len() && i != id implies #[trigger] self.proposals@[i] == old_self.proposals@[i] by {
            }
        }
        Ok(crate::notify::notify_edit_proposal(env, id, author))
    }
}

/// The first reason for which `add_proposal` refuses, if any.
pub open spec fn add_proposal_error(c: Contract, env: Env, body: VersionedProposalBody, labels: Seq<String>) -> Option<ContractError> {
    let b = body.latest();
    if c.proposals@.len() > u32::MAX {
        Some(ContractError::TooManyProposals)
    } else if !c.labels_allowed(env.current@, env.predecessor@, strings_view(labels)) {
        Some(ContractError::CannotUseLabels)
    } else if !category_known(c, b.category@) {
        Some(ContractError::UnknownCategory)
    } else if !(b.timeline is Draft || (b.timeline matches TimelineStatus::Review(s) && !s.sponsor_requested_review
        && !s.reviewer_completed_attestation)) {
        Some(ContractError::NotDraftOrReview)
    } else {
        None
    }
}

impl Contract {
    /// Submits a proposal by the caller, as a draft or for review. Its labels and
    /// author are indexed at once; the proposal itself is stored by the callback
    /// that follows its announcement on the feed.
    pub fn add_proposal(&mut self, env: &Env, body: VersionedProposalBody, labels: Vec<String>) -> (r: Result<AddProposalEffects, ContractError>)
        requires
            old(self).wf(),
        ensures
            final(self).wf(),
            ({
                let err = add_proposal_error(*old(self), *env, body, labels@);
                let id = old(self).proposals@.len() as u32;
                &&& r is Err <==> err is Some
                &&& r matches Err(e) ==> err == Some(e) && *final(self) == *old(self)
                &&& r matches Ok(fx) ==> {
                    &&& final(self).label_to_proposals.view() == index_add_all(
                        old(self).label_to_proposals.view(),
                        labels_of(labels@),
                        id,
                    )
                    &&& final(self).author_proposals.view() == old(self).author_proposals.view().insert(
                        env.predecessor@,
                        old(self).author_proposals.ids(env.predecessor@).insert(id),
                    )
                    &&& final(self).proposals == old(self).proposals
                    &&& final(self).posts == old(self).posts
                    &&& final(self).rfps == old(self).rfps
                    &&& final(self).access_control == old(self).access_control
                    &&& final(self).label_to_posts == old(self).label_to_posts
                    &&& final(self).label_to_rfps == old(self).label_to_rfps
                    &&& fx.proposal.id == id
                    &&& fx.proposal.author_id@ == env.predecessor@
                    &&& fx.proposal.social_db_post_block_height == 0
                    &&& fx.proposal.snapshot.editor_id@ == env.predecessor@
                    &&& fx.proposal.snapshot.timestamp == env.block_timestamp
                    &&& fx.proposal.snapshot.labels == labels
                    &&& fx.proposal.snapshot.body == body
                    &&& fx.proposal.snapshot_history@.len() == 0
                    &&& fx.feed.social_db@ == social_db_account_of(env.current@)
                    &&& fx.feed.contract == env.current
                    &&& fx.feed.text@ == proposal_repost_text_of(
                        env.predecessor@,
                        id,
                        body.latest().category@,
                        body.latest().name@,
                        body.latest().summary@,
                    )
                    &&& fx.feed.static_gas == env.prepaid_gas / 3
                    &&& fx.feed.deposit == env.attached_deposit
                    &&& fx.callback_gas == env.prepaid_gas / 4
                    &&& (fx.subscribers is None <==> proposal_subscribers(body.latest()).len() == 0)
                    &&& fx.subscribers matches Some(n) ==> {
                        &&& n.notifier == env.current
                        &&& n.static_gas == env.prepaid_gas / 4
                        &&& n.deposit == env.attached_deposit
                        &&& n.payload matches NotifyPayload::List(entries)
                        &&& crate::notify::entry_keys(entries@) == proposal_subscribers(body.latest())
                        &&& forall|i: int| 0 <= i < entries@.len() ==> crate::notify::same_value(
                            #[trigger] entries@[i].value,
                            NotifyValue::ProposalMention { proposal: id, notifier: env.predecessor },
                        )
                    }
                }
            }),
    {
        if self.proposals.len() > 0xffff_ffffusize {
            return Err(ContractError::TooManyProposals);
        }
        let id = self.proposals.len() as u32;
        let author_id = env.predecessor.clone();
        if !self.is_allowed_to_use_labels(env, Some(author_id.clone()), clone_strings(&labels)) {
            return Err(ContractError::CannotUseLabels);
        }
        if !self.has_category(body.category()) {
            return Err(ContractError::UnknownCategory);
        }
        let t = body.timeline();
        if !(t.is_draft() || t.is_empty_review()) {
            return Err(ContractError::NotDraftOrReview);
        }
        add_labels(&mut self.label_to_proposals, &labels, id);
        self.author_proposals.insert_id(&author_id, id);
        let proposal = Proposal {
            id,
            author_id: author_id.clone(),
            social_db_post_block_height: 0,
            snapshot: ProposalSnapshot {
                editor_id: author_id.clone(),
                timestamp: env.block_timestamp,
                labels,
                body,
            },
            snapshot_history: Vec::new(),
        };
        let text = proposal_repost_text(&proposal);
        let feed = FeedPost {
            social_db: social_db_contract(env.current.as_str()),
            contract: env.current.clone(),
            text,
            static_gas: env.prepaid_gas / 3,
            deposit: env.attached_deposit,
        };
        let notification = crate::notify::notify_proposal_subscribers(env, &proposal);
        Ok(AddProposalEffects { feed, callback_gas: env.prepaid_gas / 4, proposal, subscribers: notification })
    }

    /// Whether every label of a proposal has an entry in its label index, as for
    /// every one that `add_proposal` prepares; the block-height callback stores only such.
    pub fn proposal_labels_indexed(&self, proposal: &Proposal) -> (r: bool)
        requires
            self.wf(),
        ensures
            r == labels_of(proposal.snapshot.labels@).subset_of(self.label_to_proposals.view().dom()),
    {
        super::labels::all_indexed(&self.label_to_proposals, &proposal.snapshot.labels)
    }

    /// Stores a submitted proposal, with the block height of its announcement.
    pub fn set_block_height_callback(&mut self, proposal: Proposal, block_height: u64) -> (r: BlockHeightCallbackRetValue)
        requires
            old(self).wf(),
            labels_of(proposal.snapshot.labels@).subset_of(old(self).label_to_proposals.view().dom()),
        ensures
            final(self).wf(),
            r.proposal_id == proposal.id,
            final(self).proposals@.len() == old(self).proposals@.len() + 1,
            final(self).proposals@.drop_last() == old(self).proposals@,
            final(self).proposals@.last() == VersionedProposal::V0(
                Proposal { social_db_post_block_height: block_height, ..proposal },
            ),
            final(self).posts == old(self).posts,
            final(self).rfps == old(self).rfps,
            final(self).label_to_proposals == old(self).label_to_proposals,
            final(self).access_control == old(self).access_control,
    {
        let mut proposal = proposal;
        proposal.social_db_post_block_height = block_height;
        let id = proposal.id;
        self.proposals.push(VersionedProposal::V0(proposal));
        assert(self.proposals@.drop_last() =~= old(self).proposals@);
        BlockHeightCallbackRetValue { proposal_id: id }
    }

    pub fn edit_proposal(&mut self, env: &Env, id: u32, body: VersionedProposalBody, labels: Vec<String>) -> (r: Result<Notification, ContractError>)
        requires
            old(self).wf(),
        ensures
            final(self).wf(),
            ({
                let err = proposal_edit_error(*old(self), *env, id, body_view(body), strings_view(labels@));
                &&& r is Err <==> err is Some
                &&& r matches Err(e) ==> err == Some(e) && *final(self) == *old(self)
                &&& r matches Ok(n) ==> proposal_edit_done(
                    *old(self),
                    *final(self),
                    *env,
                    id,
                    body_view(body),
                    strings_view(labels@),
                ) && edit_notification(n, *env, old(self).proposals@[id as int].inner().author_id, id)
            }),
    {
        self.edit_proposal_internal(env, id, body, labels)
    }

    /// Moves a proposal to another timeline state, keeping the rest of its body
    /// (in the current version) and its labels.
    pub fn edit_proposal_timeline(&mut self, env: &Env, id: u32, timeline: TimelineStatus) -> (r: Result<Notification, ContractError>)
        requires
            old(self).wf(),
        ensures
            final(self).wf(),
            id >= old(self).proposals@.len() ==> r == Err::<Notification, ContractError>(ContractError::ProposalNotFound)
                && *final(self) == *old(self),
            id < old(self).proposals@.len() ==> ({
                let p = old(self).proposals@[id as int].inner();
                let bv = crate::proposal::body_view_with_timeline(p.snapshot.body, timeline);
                let labels = strings_view(p.snapshot.labels@);
                let err = proposal_edit_error(*old(self), *env, id, bv, labels);
                &&& r is Err <==> err is Some
                &&& r matches Err(e) ==> err == Some(e) && *final(self) == *old(self)
                &&& r matches Ok(n) ==> proposal_edit_done(*old(self), *final(self), *env, id, bv, labels)
                    && edit_notification(n, *env, p.author_id, id)
            }),
    {
        if id as usize >= self.proposals.len() {
            return Err(ContractError::ProposalNotFound);
        }
        let (body, labels) = match &self.proposals[id as usize] {
            VersionedProposal::V0(p) => (p.snapshot.body.with_timeline(timeline), clone_strings(&p.snapshot.labels)),
        };
        self.edit_proposal_internal(env, id, body, labels)
    }

    /// Gives a proposal new labels, keeping its body.
    pub fn update_proposal_labels(&mut self, env: &Env, proposal_id: u32, new_labels: Vec<String>) -> (r: Result<Notification, ContractError>)
        requires
            old(self).wf(),
        ensures
            final(self).wf(),
            proposal_id >= old(self).proposals@.len() ==> r == Err::<Notification, ContractError>(ContractError::ProposalNotFound)
                && *final(self) == *old(self),
            proposal_id < old(self).proposals@.len() ==> ({
                let p = old(self).proposals@[proposal_id as int].inner();
                let bv = body_view(p.snapshot.body);
                let err = proposal_edit_error(*old(self), *env, proposal_id, bv, strings_view(new_labels@));
                &&& r is Err <==> err is Some
                &&& r matches Err(e) ==> err == Some(e) && *final(self) == *old(self)
                &&& r matches Ok(n) ==> proposal_edit_done(*old(self), *final(self), *env, proposal_id, bv, strings_view(new_labels@))
                    && edit_notification(n, *env, p.author_id, proposal_id)
            }),
    {
        if proposal_id as usize >= self.proposals.len() {
            return Err(ContractError::ProposalNotFound);
        }
        let body = match &self.proposals[proposal_id as usize] {
            VersionedProposal::V0(p) => p.snapshot.body.deep_clone(),
        };
        self.edit_proposal_internal(env, proposal_id, body, new_labels)
    }

    /// All stored proposals.
    pub fn get_proposals(&self) -> (r: &Vec<VersionedProposal>)
        ensures
            *r == self.proposals,
    {
        &self.proposals
    }

    /// The stored proposal with this id.
    pub fn get_proposal(&self, proposal_id: u32) -> (r: &VersionedProposal)
        requires
            proposal_id < self.proposals@.len(),
        ensures
            *r == self.proposals@[proposal_id as int],
    {
        &self.proposals[proposal_id as usize]
    }

    /// The positions of all stored proposals, in order.
    pub fn get_all_proposal_ids(&self) -> (r: Vec<u32>)
        requires
            self.proposals@.len() <= u32::MAX + 1,
        ensures
            r@.len() == self.proposals@.len(),
            forall|i: int| 0 <= i < r@.len() ==> r@[i] == i,
    {
        let n = self.proposals.len();
        let mut r: Vec<u32> = Vec::new();
        let mut i: usize = 0;
        while i < n
            invariant
                n == self.proposals@.len(),
                n <= u32::MAX + 1,
                i <= n,
                r@.len() == i,
                forall|j: int| 0 <= j < i ==> r@[j] == j,
            decreases n - i,
        {
            r.push(i as u32);
            i += 1;
        }
        r
    }

    /// The ids of the proposals by `author`, each once.
    pub fn get_proposals_by_author(&self, author: AccountId) -> (r: Vec<u32>)
        requires
            self.wf(),
        ensures
            r@.to_set() == self.author_proposals.ids(author@),
            r@.no_duplicates(),
    {
        self.author_proposals.ids_of(&author)
    }

    /// The ids of the proposals with `label`, in increasing order.
    pub fn get_proposals_by_label(&self, label: String) -> (r: Vec<u32>)
        requires
            self.wf(),
        ensures
            r@.to_set() == self.label_to_proposals.ids(label@),
            crate::index::strictly_sorted(r@),
    {
        self.label_to_proposals.sorted(&label)
    }

    pub fn get_allowed_categories(&self) -> (r: &Vec<String>)
        ensures
            *r == self.proposal_categories,
    {
        &self.proposal_categories
    }

    /// Replaces the proposal categories; only the contract itself and moderators may.
    pub fn set_allowed_categories(&mut self, env: &Env, new_categories: Vec<String>) -> (r: Result<(), ContractError>)
        requires
            old(self).wf(),
        ensures
            final(self).wf(),
            r is Ok <==> old(self).admin_or_moderator(*env),
            r is Err ==> *final(self) == *old(self) && r == Err::<(), ContractError>(ContractError::OnlyModeratorsOrAdmin),
            r is Ok ==> final(self).proposal_categories == new_categories && final(self).posts == old(self).posts
                && final(self).proposals == old(self).proposals && final(self).rfps == old(self).rfps
                && final(self).access_control == old(self).access_control,
    {
        if !(self.has_moderator(env.predecessor.clone()) || env.predecessor == env.current) {
            return Err(ContractError::OnlyModeratorsOrAdmin);
        }
        self.proposal_categories = new_categories;
        Ok(())
    }
}

} // verus!
