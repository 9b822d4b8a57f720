//! The contract's state and the rules that every call obeys.
pub mod access;
pub mod communities;
pub mod labels;
pub mod posts;
pub mod proposals;
pub mod rfps;

use crate::access_control::members::{permissions_for, ActionType, Member, MembersError};
use crate::access_control::rules::{restricted_labels, strings_view};
use crate::access_control::{is_moderator, AccessControl};
use crate::account::AccountId;
use crate::assoc::{AssocMap, ViewKey};
use crate::changelog::ChangeLog;
use crate::community::{AddOn, AddOnError, Community, CommunityError, FeaturedCommunity};
use crate::index::SetIndex;
use labels::labels_of;
use crate::post::like::likes_wf;
use crate::post::{VersionedPost, ROOT_POST_ID};
use crate::proposal::VersionedProposal;
use crate::rfp::VersionedRFP;
use vstd::prelude::*;

verus! {

/// What the runtime tells a call about itself.
pub struct Env {
    /// The account that called the contract.
    pub predecessor: AccountId,
    /// The contract's own account.
    pub current: AccountId,
    pub block_timestamp: u64,
    pub block_height: u64,
    /// Attached deposit, in yoctoNEAR.
    pub attached_deposit: u128,
    /// Gas prepaid for the call.
    pub prepaid_gas: u64,
}

pub struct Contract {
    pub posts: Vec<VersionedPost>,
    pub post_to_parent: AssocMap<u64, u64>,
    pub post_to_children: AssocMap<u64, Vec<u64>>,
    pub label_to_posts: SetIndex<u64>,
    pub access_control: AccessControl,
    pub authors: SetIndex<u64>,
    pub proposals: Vec<VersionedProposal>,
    pub label_to_proposals: SetIndex<u32>,
    pub author_proposals: SetIndex<u32>,
    pub proposal_categories: Vec<String>,
    pub rfps: Vec<VersionedRFP>,
    pub label_to_rfps: SetIndex<u32>,
    pub communities: AssocMap<String, Community>,
    pub featured_communities: Vec<FeaturedCommunity>,
    pub available_addons: AssocMap<String, AddOn>,
    pub change_log: Vec<ChangeLog>,
}

/// Why a call was refused; the contract's state is then unchanged.
#[derive(Debug, Clone, Copy, PartialEq, Eq, Structural)]
pub enum ContractError {
    /// The caller may not use (add or remove) some of the labels.
    CannotUseLabels,
    NotAllowedToRemoveLabels,
    NotAllowedToAddLabels,
    ParentNotFound,
    ParentPostNotFound,
    PostNotFound,
    /// The body is of a version that can no longer be posted.
    OutdatedBody,
    /// A label that the RFP drops has no entry in the RFP label index: the RFP
    /// was stored with labels that were never indexed.
    LabelNotIndexed,
    NotAllowedToEditPost,
    ProposalNotFound,
    UnknownCategory,
    NotDraftOrReview,
    TooManyProposals,
    NotAllowedToEditProposal,
    OnlyDraftToReview,
    SupervisorRequired,
    RfpNotFound,
    TooManyRfps,
    NotAllowedToCreateRfps,
    NotAllowedToEditRfps,
    NotAcceptingSubmissions,
    RfpClosedForLinking,
    NoApprovedProposal,
    OnlyModeratorsOrAdmin,
    CommunityAlreadyExists,
    CommunityNotFound,
    InsufficientDeposit,
    InsufficientGas,
    InvalidCommunity(CommunityError),
    HandleChanged,
    OnlyCommunityAdmins,
    OnlyModerators,
    AddOnAlreadyExists,
    AddOnNotFound,
    InvalidAddOn(AddOnError),
    TooManyPosts,
    /// A derived account name is not a valid account id.
    InvalidAccountId,
    /// A membership change was refused.
    Members(MembersError),
}

/// The posts that form the contract's state, each keeping at most one like per author.
pub open spec fn posts_wf(posts: Seq<VersionedPost>) -> bool {
    forall|i: int| 0 <= i < posts.len() ==> likes_wf((#[trigger] posts[i]).inner().likes@)
}

impl Contract {
    pub open spec fn wf(&self) -> bool {
        &&& self.post_to_parent.wf()
        &&& self.post_to_children.wf()
        &&& self.label_to_posts.wf()
        &&& self.access_control.wf()
        &&& self.authors.wf()
        &&& self.label_to_proposals.wf()
        &&& self.author_proposals.wf()
        &&& self.label_to_rfps.wf()
        &&& self.communities.wf()
        &&& self.available_addons.wf()
        &&& posts_wf(self.posts@)
        &&& self.labels_indexed()
    }

    /// Every label of a post or a proposal has an entry in the matching label
    /// index (entries are never taken out, only emptied). RFPs are stored by a
    /// callback that anyone may call, so their labels carry no such promise.
    pub open spec fn labels_indexed(&self) -> bool {
        &&& forall|i: int| 0 <= i < self.posts@.len() ==> labels_of((#[trigger] self.posts@[i]).inner().snapshot.labels@).subset_of(
            self.label_to_posts.view().dom(),
        )
        &&& forall|i: int| 0 <= i < self.proposals@.len() ==> labels_of(
            (#[trigger] self.proposals@[i]).inner().snapshot.labels@,
        ).subset_of(self.label_to_proposals.view().dom())
    }

    /// A contract with no content, no rules and no members, and the default
    /// proposal categories; the landing page (the root post) starts without replies.
    pub fn new() -> (r: Self)
        ensures
            r.wf(),
            r.posts@.len() == 0,
            r.proposals@.len() == 0,
            r.rfps@.len() == 0,
            strings_view(r.proposal_categories@) == crate::proposal::default_category_names(),
            r.post_to_parent.map().is_empty(),
            r.post_to_children.map().dom() == Set::<u64>::empty().insert(ROOT_POST_ID),
            r.post_to_children.map()[ROOT_POST_ID]@.len() == 0,
            r.label_to_posts.view().is_empty(),
            r.authors.view().is_empty(),
            r.label_to_proposals.view().is_empty(),
            r.author_proposals.view().is_empty(),
            r.label_to_rfps.view().is_empty(),
            r.communities.map().is_empty(),
            r.available_addons.map().is_empty(),
            r.featured_communities@.len() == 0,
            r.access_control.rules_list.view().is_empty(),
            r.access_control.members_list.view().is_empty(),
    {
        let mut post_to_children: AssocMap<u64, Vec<u64>> = AssocMap::new();
        let empty: Vec<u64> = Vec::new();
        post_to_children.insert(ROOT_POST_ID, empty);
        let r = Contract {
            posts: Vec::new(),
            post_to_parent: AssocMap::new(),
            post_to_children,
            label_to_posts: SetIndex::new(),
            access_control: AccessControl::new(),
            authors: SetIndex::new(),
            proposals: Vec::new(),
            label_to_proposals: SetIndex::new(),
            author_proposals: SetIndex::new(),
            proposal_categories: crate::proposal::default_categories(),
            rfps: Vec::new(),
            label_to_rfps: SetIndex::new(),
            communities: AssocMap::new(),
            featured_communities: Vec::new(),
            available_addons: AssocMap::new(),
            change_log: Vec::new(),
        };
        proof {
            assert(r.post_to_children.map().dom() =~= Set::<u64>::empty().insert(ROOT_POST_ID));
        }
        r
    }

    /// `account` is a hub moderator.
    pub open spec fn moderator(&self, account: Seq<char>) -> bool {
        is_moderator(self.access_control.members_list.view(), account)
    }

    /// The caller is the contract itself or a hub moderator.
    pub open spec fn admin_or_moderator(&self, env: Env) -> bool {
        self.moderator(env.predecessor@) || env.predecessor@ == env.current@
    }

    /// `editor` may use the labels: it is the contract itself, none of the labels
    /// is restricted, or its permissions on them include using labels.
    pub open spec fn labels_allowed(&self, current: Seq<char>, editor: Seq<char>, labels: Seq<Seq<char>>) -> bool {
        ||| editor == current
        ||| restricted_labels(self.access_control.rules_list.view(), labels).is_empty()
        ||| permissions_for(self.access_control.members_list.view(), editor, labels).contains(
            ActionType::UseLabels,
        )
    }

    /// Whether `account` is a hub moderator.
    pub fn has_moderator(&self, account_id: AccountId) -> (r: bool)
        requires
            self.wf(),
        ensures
            r == self.moderator(account_id@),
    {
        let moderators = self.access_control.members_list.get_moderators();
        assert(crate::access_control::members::member_set(moderators@) == crate::access_control::moderators_of(
            self.access_control.members_list.view(),
        ));
        let target = Member::Account(account_id);
        let mut i: usize = 0;
        while i < moderators.len()
            invariant
                i <= moderators@.len(),
                forall|j: int| 0 <= j < i ==> moderators@[j]@ != target@,
                crate::access_control::members::member_set(moderators@) == crate::access_control::moderators_of(
                    self.access_control.members_list.view(),
                ),
                target@ == crate::access_control::members::MemberView::Account(account_id@),
            decreases moderators@.len() - i,
        {
            if moderators[i].same_key(&target) {
                proof {
                    assert(crate::access_control::members::member_set(moderators@).contains(target@));
                }
                return true;
            }
            i += 1;
        }
        proof {
            if crate::access_control::members::member_set(moderators@).contains(target@) {
                let j = choose|j: int| 0 <= j < moderators@.len() && #[trigger] moderators@[j]@ == target@;
                assert(moderators@[j]@ != target@);
            }
        }
        false
    }

    /// Whether `editor` (the caller when none is given) may use these labels.
    pub fn is_allowed_to_use_labels(&self, env: &Env, editor: Option<AccountId>, labels: Vec<String>) -> (r: bool)
        requires
            self.wf(),
        ensures
            r == self.labels_allowed(
                env.current@,
                match editor {
                    Some(e) => e@,
                    None => env.predecessor@,
                },
                strings_view(labels@),
            ),
    {
        let editor = match editor {
            Some(e) => e,
            None => env.predecessor.clone(),
        };
        if editor == env.current {
            return true;
        }
        let restricted = self.access_control.rules_list.find_restricted(labels.as_slice());
        if restricted.len() == 0 {
            proof {
                assert(strings_view(restricted@).to_set() =~= Set::<Seq<char>>::empty());
            }
            return true;
        }
        proof {
            assert(strings_view(restricted@)[0] == restricted@[0]@);
            assert(strings_view(restricted@).contains(restricted@[0]@));
            assert(strings_view(restricted@).to_set().contains(restricted@[0]@));
        }
        let actions = self.access_control.members_list.check_permissions(editor, labels);
        contains_action(&actions, ActionType::UseLabels)
    }

    /// Whether `editor` may create and edit RFPs: the contract itself or a moderator.
    pub fn is_allowed_to_write_rfps(&self, env: &Env, editor: AccountId) -> (r: bool)
        requires
            self.wf(),
        ensures
            r == (editor@ == env.current@ || self.moderator(editor@)),
    {
        editor == env.current || self.has_moderator(editor)
    }
}

pub fn contains_action(v: &Vec<ActionType>, a: ActionType) -> (r: bool)
    ensures
        r == v@.contains(a),
        r == v@.to_set().contains(a),
{
    let mut i: usize = 0;
    while i < v.len()
        invariant
            i <= v@.len(),
            forall|j: int| 0 <= j < i ==> v@[j] != a,
        decreases v@.len() - i,
    {
        if v[i] == a {
            return true;
        }
        i += 1;
    }
    false
}

} // verus!
