//! Funding proposals.
pub mod timeline;

use crate::account::AccountId;
use crate::notify::{get_text_mentions, strings_of, text_mentions};
use timeline::TimelineStatus;
use vstd::prelude::*;

verus! {

pub type ProposalId = u32;

pub enum VersionedProposal {
    V0(Proposal),
}

pub struct Proposal {
    pub id: ProposalId,
    pub author_id: AccountId,
    pub social_db_post_block_height: u64,
    pub snapshot: ProposalSnapshot,
    /// Earlier snapshots, oldest first; the current one is not among them.
    pub snapshot_history: Vec<ProposalSnapshot>,
}

impl VersionedProposal {
    pub open spec fn inner(self) -> Proposal {
        match self {
            VersionedProposal::V0(p) => p,
        }
    }
}

impl From<VersionedProposal> for Proposal {
    fn from(vp: VersionedProposal) -> (r: Self)
        ensures
            r == vp.inner(),
    {
        match vp {
            VersionedProposal::V0(v0) => v0,
        }
    }
}

impl vstd::std_specs::convert::FromSpecImpl<VersionedProposal> for Proposal {
    open spec fn obeys_from_spec() -> bool {
        true
    }

    open spec fn from_spec(v: VersionedProposal) -> Self {
        v.inner()
    }
}

impl From<Proposal> for VersionedProposal {
    fn from(p: Proposal) -> (r: Self)
        ensures
            r == VersionedProposal::V0(p),
    {
        VersionedProposal::V0(p)
    }
}

impl vstd::std_specs::convert::FromSpecImpl<Proposal> for VersionedProposal {
    open spec fn obeys_from_spec() -> bool {
        true
    }

    open spec fn from_spec(v: Proposal) -> Self {
        VersionedProposal::V0(v)
    }
}

pub struct ProposalSnapshot {
    pub editor_id: AccountId,
    pub timestamp: u64,
    pub labels: Vec<String>,
    pub body: VersionedProposalBody,
}

#[derive(Clone, Copy, PartialEq, Eq, Structural)]
pub enum ProposalFundingCurrency {
    NEAR,
    USDT,
    USDC,
    OTHER,
}

pub struct ProposalBodyV0 {
    pub name: String,
    pub category: String,
    pub summary: String,
    pub description: String,
    pub linked_proposals: Vec<ProposalId>,
    pub requested_sponsorship_usd_amount: u32,
    pub requested_sponsorship_paid_in_currency: ProposalFundingCurrency,
    pub receiver_account: AccountId,
    pub requested_sponsor: AccountId,
    pub supervisor: Option<AccountId>,
    pub timeline: TimelineStatus,
}

pub struct ProposalBodyV1 {
    pub name: String,
    pub category: String,
    pub summary: String,
    pub description: String,
    pub linked_proposals: Vec<ProposalId>,
    pub requested_sponsorship_usd_amount: u32,
    pub requested_sponsorship_paid_in_currency: ProposalFundingCurrency,
    pub receiver_account: AccountId,
    pub requested_sponsor: AccountId,
    pub supervisor: Option<AccountId>,
    pub timeline: TimelineStatus,
    pub linked_rfp: Option<u32>,
}

pub enum VersionedProposalBody {
    V0(ProposalBodyV0),
    V1(ProposalBodyV1),
}

/// A first-version body in the current shape: it links to no RFP.
pub open spec fn body_v1_of(v0: ProposalBodyV0) -> ProposalBodyV1 {
    ProposalBodyV1 {
        name: v0.name,
        category: v0.category,
        summary: v0.summary,
        description: v0.description,
        linked_proposals: v0.linked_proposals,
        requested_sponsorship_usd_amount: v0.requested_sponsorship_usd_amount,
        requested_sponsorship_paid_in_currency: v0.requested_sponsorship_paid_in_currency,
        receiver_account: v0.receiver_account,
        requested_sponsor: v0.requested_sponsor,
        supervisor: v0.supervisor,
        timeline: v0.timeline,
        linked_rfp: None,
    }
}

impl VersionedProposalBody {
    /// The body in its current shape.
    pub open spec fn latest(self) -> ProposalBodyV1 {
        match self {
            VersionedProposalBody::V0(v0) => body_v1_of(v0),
            VersionedProposalBody::V1(v1) => v1,
        }
    }

    pub fn latest_version(self) -> (r: ProposalBodyV1)
        ensures
            r == self.latest(),
    {
        ProposalBodyV1::from(self)
    }

    pub fn name(&self) -> (r: &String)
        ensures
            *r == self.latest().name,
    {
        match self {
            VersionedProposalBody::V0(b) => &b.name,
            VersionedProposalBody::V1(b) => &b.name,
        }
    }

    pub fn summary(&self) -> (r: &String)
        ensures
            *r == self.latest().summary,
    {
        match self {
            VersionedProposalBody::V0(b) => &b.summary,
            VersionedProposalBody::V1(b) => &b.summary,
        }
    }

    pub fn category(&self) -> (r: &String)
        ensures
            *r == self.latest().category,
    {
        match self {
            VersionedProposalBody::V0(b) => &b.category,
            VersionedProposalBody::V1(b) => &b.category,
        }
    }

    pub fn timeline(&self) -> (r: &TimelineStatus)
        ensures
            *r == self.latest().timeline,
    {
        match self {
            VersionedProposalBody::V0(b) => &b.timeline,
            VersionedProposalBody::V1(b) => &b.timeline,
        }
    }

    pub fn has_supervisor(&self) -> (r: bool)
        ensures
            r == self.latest().supervisor is Some,
    {
        match self {
            VersionedProposalBody::V0(b) => b.supervisor.is_some(),
            VersionedProposalBody::V1(b) => b.supervisor.is_some(),
        }
    }

    pub fn linked_rfp(&self) -> (r: Option<u32>)
        ensures
            r == self.latest().linked_rfp,
    {
        match self {
            VersionedProposalBody::V0(_) => None,
            VersionedProposalBody::V1(b) => b.linked_rfp,
        }
    }

    /// The parties a proposal concerns, as `get_subscribers` lists them.
    pub fn subscribers(&self) -> (r: Vec<String>)
        ensures
            strings_of(r@) == proposal_subscribers(self.latest()),
    {
        match self {
            VersionedProposalBody::V0(b) => {
                let mut result = get_text_mentions(b.description.as_str());
                let summary_mentions = get_text_mentions(b.summary.as_str());
                append_strings(&mut result, &summary_mentions);
                let ghost mid = strings_of(result@);
                match &b.supervisor {
                    Some(supervisor) => {
                        result.push(supervisor.clone());
                        assert(strings_of(result@) =~= mid.push(supervisor@));
                    },
                    None => {},
                }
                let ghost mid2 = strings_of(result@);
                result.push(b.requested_sponsor.clone());
                assert(strings_of(result@) =~= mid2.push(b.requested_sponsor@));
                result
            },
            VersionedProposalBody::V1(b) => get_subscribers(b),
        }
    }
}

impl From<ProposalBodyV0> for ProposalBodyV1 {
    fn from(v0: ProposalBodyV0) -> (r: Self)
        ensures
            r == body_v1_of(v0),
    {
        ProposalBodyV1 {
            name: v0.name,
            category: v0.category,
            summary: v0.summary,
            description: v0.description,
            linked_proposals: v0.linked_proposals,
            requested_sponsorship_usd_amount: v0.requested_sponsorship_usd_amount,
            requested_sponsorship_paid_in_currency: v0.requested_sponsorship_paid_in_currency,
            receiver_account: v0.receiver_account,
            requested_sponsor: v0.requested_sponsor,
            supervisor: v0.supervisor,
            timeline: v0.timeline,
            linked_rfp: None,
        }
    }
}

impl vstd::std_specs::convert::FromSpecImpl<ProposalBodyV0> for ProposalBodyV1 {
    open spec fn obeys_from_spec() -> bool {
        true
    }

    open spec fn from_spec(v: ProposalBodyV0) -> Self {
        body_v1_of(v)
    }
}

impl From<VersionedProposalBody> for ProposalBodyV1 {
    fn from(b: VersionedProposalBody) -> (r: Self)
        ensures
            r == b.latest(),
    {
        match b {
            VersionedProposalBody::V0(v0) => ProposalBodyV1::from(v0),
            VersionedProposalBody::V1(v1) => v1,
        }
    }
}

impl vstd::std_specs::convert::FromSpecImpl<VersionedProposalBody> for ProposalBodyV1 {
    open spec fn obeys_from_spec() -> bool {
        true
    }

    open spec fn from_spec(v: VersionedProposalBody) -> Self {
        v.latest()
    }
}

impl From<ProposalBodyV0> for VersionedProposalBody {
    fn from(p: ProposalBodyV0) -> (r: Self)
        ensures
            r == VersionedProposalBody::V0(p),
    {
        VersionedProposalBody::V0(p)
    }
}

impl vstd::std_specs::convert::FromSpecImpl<ProposalBodyV0> for VersionedProposalBody {
    open spec fn obeys_from_spec() -> bool {
        true
    }

    open spec fn from_spec(v: ProposalBodyV0) -> Self {
        VersionedProposalBody::V0(v)
    }
}

impl From<ProposalBodyV1> for VersionedProposalBody {
    fn from(p: ProposalBodyV1) -> (r: Self)
        ensures
            r == VersionedProposalBody::V1(p),
    {
        VersionedProposalBody::V1(p)
    }
}

impl vstd::std_specs::convert::FromSpecImpl<ProposalBodyV1> for VersionedProposalBody {
    open spec fn obeys_from_spec() -> bool {
        true
    }

    open spec fn from_spec(v: ProposalBodyV1) -> Self {
        VersionedProposalBody::V1(v)
    }
}

/// Everyone a proposal concerns: those mentioned in its description, then in its
/// summary, then its supervisor if any, then the requested sponsor.
pub open spec fn proposal_subscribers(b: ProposalBodyV1) -> Seq<Seq<char>> {
    let mentioned = text_mentions(b.description@) + text_mentions(b.summary@);
    let with_supervisor = match b.supervisor {
        Some(s) => mentioned.push(s@),
        None => mentioned,
    };
    with_supervisor.push(b.requested_sponsor@)
}

/// Appends copies of `src` to `dst`.
pub fn append_strings(dst: &mut Vec<String>, src: &Vec<String>)
    ensures
        strings_of(final(dst)@) == strings_of(old(dst)@) + strings_of(src@),
{
    let ghost start = strings_of(dst@);
    let mut i: usize = 0;
    while i < src.len()
        invariant
            i <= src@.len(),
            strings_of(dst@) == start + strings_of(src@).subrange(0, i as int),
        decreases src@.len() - i,
    {
        let ghost before = dst@;
        dst.push(src[i].clone());
        proof {
            assert(strings_of(dst@) =~= strings_of(before).push(src@[i as int]@));
            assert(strings_of(src@).subrange(0, i + 1) =~= strings_of(src@).subrange(0, i as int).push(
                src@[i as int]@,
            ));
        }
        i += 1;
    }
    assert(strings_of(src@).subrange(0, src@.len() as int) =~= strings_of(src@));
}

pub fn get_subscribers(proposal_body: &ProposalBodyV1) -> (r: Vec<String>)
    ensures
        strings_of(r@) == proposal_subscribers(*proposal_body),
{
    let mut result = get_text_mentions(proposal_body.description.as_str());
    let summary_mentions = get_text_mentions(proposal_body.summary.as_str());
    append_strings(&mut result, &summary_mentions);
    let ghost mid = strings_of(result@);
    match &proposal_body.supervisor {
        Some(supervisor) => {
            result.push(supervisor.clone());
            assert(strings_of(result@) =~= mid.push(supervisor@));
        },
        None => {},
    }
    let ghost mid2 = strings_of(result@);
    result.push(proposal_body.requested_sponsor.clone());
    assert(strings_of(result@) =~= mid2.push(proposal_body.requested_sponsor@));
    result
}

pub open spec fn default_category_names() -> Seq<Seq<char>> {
    seq![
        "DevDAO Operations"@,
        "Decentralized DevRel"@,
        "NEAR Campus"@,
        "Marketing"@,
        "Events"@,
        "Tooling & Infrastructures"@,
        "Other"@,
    ]
}

/// The proposal categories a new contract starts with.
pub fn default_categories() -> (r: Vec<String>)
    ensures
        strings_of(r@) == default_category_names(),
{
    let r = vec![
        String::from_str("DevDAO Operations"),
        String::from_str("Decentralized DevRel"),
        String::from_str("NEAR Campus"),
        String::from_str("Marketing"),
        String::from_str("Events"),
        String::from_str("Tooling & Infrastructures"),
        String::from_str("Other"),
    ];
    assert(strings_of(r@) =~= default_category_names());
    r
}

/// The content of a proposal body, its texts taken by their characters.
pub struct BodyView {
    pub version: nat,
    pub name: Seq<char>,
    pub category: Seq<char>,
    pub summary: Seq<char>,
    pub description: Seq<char>,
    pub linked_proposals: Seq<u32>,
    pub requested_sponsorship_usd_amount: u32,
    pub requested_sponsorship_paid_in_currency: ProposalFundingCurrency,
    pub receiver_account: Seq<char>,
    pub requested_sponsor: Seq<char>,
    pub supervisor: Option<Seq<char>>,
    pub timeline: timeline::TimelineView,
    pub linked_rfp: Option<u32>,
}

pub open spec fn opt_view(o: Option<String>) -> Option<Seq<char>> {
    match o {
        Some(s) => Some(s@),
        None => None,
    }
}

/// The content of a body in the current shape, tagged with its version.
pub open spec fn body_v1_view(b: ProposalBodyV1, version: nat) -> BodyView {
    BodyView {
        version,
        name: b.name@,
        category: b.category@,
        summary: b.summary@,
        description: b.description@,
        linked_proposals: b.linked_proposals@,
        requested_sponsorship_usd_amount: b.requested_sponsorship_usd_amount,
        requested_sponsorship_paid_in_currency: b.requested_sponsorship_paid_in_currency,
        receiver_account: b.receiver_account@,
        requested_sponsor: b.requested_sponsor@,
        supervisor: opt_view(b.supervisor),
        timeline: timeline::timeline_view(b.timeline),
        linked_rfp: b.linked_rfp,
    }
}

pub open spec fn body_view(b: VersionedProposalBody) -> BodyView {
    match b {
        VersionedProposalBody::V0(_) => body_v1_view(b.latest(), 0),
        VersionedProposalBody::V1(v1) => body_v1_view(v1, 1),
    }
}

/// The current body of `b` with its timeline replaced by `t`, in the current version.
pub open spec fn body_view_with_timeline(b: VersionedProposalBody, t: TimelineStatus) -> BodyView {
    BodyView { version: 1, timeline: timeline::timeline_view(t), ..body_v1_view(b.latest(), 1) }
}

fn clone_opt(o: &Option<String>) -> (r: Option<String>)
    ensures
        opt_view(r) == opt_view(*o),
{
    match o {
        Some(s) => Some(s.clone()),
        None => None,
    }
}

fn clone_ids(v: &Vec<u32>) -> (r: Vec<u32>)
    ensures
        r@ == v@,
{
    crate::index::copy_ids(v)
}

impl VersionedProposalBody {
    /// A copy of the body.
    pub fn deep_clone(&self) -> (r: VersionedProposalBody)
        ensures
            body_view(r) == body_view(*self),
    {
        match self {
            VersionedProposalBody::V0(b) => VersionedProposalBody::V0(ProposalBodyV0 {
                name: b.name.clone(),
                category: b.category.clone(),
                summary: b.summary.clone(),
                description: b.description.clone(),
                linked_proposals: clone_ids(&b.linked_proposals),
                requested_sponsorship_usd_amount: b.requested_sponsorship_usd_amount,
                requested_sponsorship_paid_in_currency: b.requested_sponsorship_paid_in_currency,
                receiver_account: b.receiver_account.clone(),
                requested_sponsor: b.requested_sponsor.clone(),
                supervisor: clone_opt(&b.supervisor),
                timeline: b.timeline.deep_clone(),
            }),
            VersionedProposalBody::V1(b) => VersionedProposalBody::V1(ProposalBodyV1 {
                name: b.name.clone(),
                category: b.category.clone(),
                summary: b.summary.clone(),
                description: b.description.clone(),
                linked_proposals: clone_ids(&b.linked_proposals),
                requested_sponsorship_usd_amount: b.requested_sponsorship_usd_amount,
                requested_sponsorship_paid_in_currency: b.requested_sponsorship_paid_in_currency,
                receiver_account: b.receiver_account.clone(),
                requested_sponsor: b.requested_sponsor.clone(),
                supervisor: clone_opt(&b.supervisor),
                timeline: b.timeline.deep_clone(),
                linked_rfp: b.linked_rfp,
            }),
        }
    }

    /// The current form of the body with its timeline replaced.
    pub fn with_timeline(&self, timeline: TimelineStatus) -> (r: VersionedProposalBody)
        ensures
            body_view(r) == body_view_with_timeline(*self, timeline),
    {
        match self {
            VersionedProposalBody::V0(b) => VersionedProposalBody::V1(ProposalBodyV1 {
                name: b.name.clone(),
                category: b.category.clone(),
                summary: b.summary.clone(),
                description: b.description.clone(),
                linked_proposals: clone_ids(&b.linked_proposals),
                requested_sponsorship_usd_amount: b.requested_sponsorship_usd_amount,
                requested_sponsorship_paid_in_currency: b.requested_sponsorship_paid_in_currency,
                receiver_account: b.receiver_account.clone(),
                requested_sponsor: b.requested_sponsor.clone(),
                supervisor: clone_opt(&b.supervisor),
                timeline,
                linked_rfp: None,
            }),
            VersionedProposalBody::V1(b) => VersionedProposalBody::V1(ProposalBodyV1 {
                name: b.name.clone(),
                category: b.category.clone(),
                summary: b.summary.clone(),
                description: b.description.clone(),
                linked_proposals: clone_ids(&b.linked_proposals),
                requested_sponsorship_usd_amount: b.requested_sponsorship_usd_amount,
                requested_sponsorship_paid_in_currency: b.requested_sponsorship_paid_in_currency,
                receiver_account: b.receiver_account.clone(),
                requested_sponsor: b.requested_sponsor.clone(),
                supervisor: clone_opt(&b.supervisor),
                timeline,
                linked_rfp: b.linked_rfp,
            }),
        }
    }
}

} // verus!
