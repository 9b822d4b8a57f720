//! Requests for proposals.
pub mod timeline;

use crate::account::AccountId;
use crate::notify::{get_text_mentions, strings_of, text_mentions};
use crate::proposal::append_strings;
pub use timeline::TimelineStatus;
use vstd::prelude::*;

verus! {

pub type RFPId = u32;

pub enum VersionedRFP {
    V0(RFP),
}

pub struct RFP {
    pub id: RFPId,
    pub author_id: AccountId,
    pub social_db_post_block_height: u64,
    pub snapshot: RFPSnapshot,
    /// The block heights of the earlier snapshots, oldest first.
    pub snapshot_history: Vec<u64>,
}

impl VersionedRFP {
    pub open spec fn inner(self) -> RFP {
        match self {
            VersionedRFP::V0(r) => r,
        }
    }
}

impl From<VersionedRFP> for RFP {
    fn from(vp: VersionedRFP) -> (r: Self)
        ensures
            r == vp.inner(),
    {
        match vp {
            VersionedRFP::V0(v0) => v0,
        }
    }
}

impl vstd::std_specs::convert::FromSpecImpl<VersionedRFP> for RFP {
    open spec fn obeys_from_spec() -> bool {
        true
    }

    open spec fn from_spec(v: VersionedRFP) -> Self {
        v.inner()
    }
}

impl From<RFP> for VersionedRFP {
    fn from(p: RFP) -> (r: Self)
        ensures
            r == VersionedRFP::V0(p),
    {
        VersionedRFP::V0(p)
    }
}

impl vstd::std_specs::convert::FromSpecImpl<RFP> for VersionedRFP {
    open spec fn obeys_from_spec() -> bool {
        true
    }

    open spec fn from_spec(v: RFP) -> Self {
        VersionedRFP::V0(v)
    }
}

pub struct RFPSnapshot {
    pub editor_id: AccountId,
    pub timestamp: u64,
    pub block_height: u64,
    pub labels: Vec<String>,
    pub body: VersionedRFPBody,
    pub linked_proposals: Vec<u32>,
}

pub struct RFPBodyV0 {
    pub name: String,
    pub summary: String,
    pub description: String,
    pub timeline: TimelineStatus,
    pub submission_deadline: u64,
}

pub enum VersionedRFPBody {
    V0(RFPBodyV0),
}

impl VersionedRFPBody {
    pub open spec fn latest(self) -> RFPBodyV0 {
        match self {
            VersionedRFPBody::V0(v0) => v0,
        }
    }

    pub fn latest_version(self) -> (r: RFPBodyV0)
        ensures
            r == self.latest(),
    {
        RFPBodyV0::from(self)
    }

    pub fn name(&self) -> (r: &String)
        ensures
            *r == self.latest().name,
    {
        match self {
            VersionedRFPBody::V0(b) => &b.name,
        }
    }

    pub fn summary(&self) -> (r: &String)
        ensures
            *r == self.latest().summary,
    {
        match self {
            VersionedRFPBody::V0(b) => &b.summary,
        }
    }

    /// The parties an RFP concerns, as `get_subscribers` lists them.
    pub fn subscribers(&self) -> (r: Vec<String>)
        ensures
            strings_of(r@) == rfp_subscribers(self.latest()),
    {
        match self {
            VersionedRFPBody::V0(b) => get_subscribers(b),
        }
    }

    /// The timeline of the body.
    pub fn timeline(&self) -> (r: TimelineStatus)
        ensures
            r == self.latest().timeline,
    {
        match self {
            VersionedRFPBody::V0(v0) => v0.timeline,
        }
    }
}

impl From<VersionedRFPBody> for RFPBodyV0 {
    fn from(b: VersionedRFPBody) -> (r: Self)
        ensures
            r == b.latest(),
    {
        match b {
            VersionedRFPBody::V0(v0) => v0,
        }
    }
}

impl vstd::std_specs::convert::FromSpecImpl<VersionedRFPBody> for RFPBodyV0 {
    open spec fn obeys_from_spec() -> bool {
        true
    }

    open spec fn from_spec(v: VersionedRFPBody) -> Self {
        v.latest()
    }
}

impl From<RFPBodyV0> for VersionedRFPBody {
    fn from(p: RFPBodyV0) -> (r: Self)
        ensures
            r == VersionedRFPBody::V0(p),
    {
        VersionedRFPBody::V0(p)
    }
}

impl vstd::std_specs::convert::FromSpecImpl<RFPBodyV0> for VersionedRFPBody {
    open spec fn obeys_from_spec() -> bool {
        true
    }

    open spec fn from_spec(v: RFPBodyV0) -> Self {
        VersionedRFPBody::V0(v)
    }
}

/// Everyone an RFP mentions, in its description and then in its summary.
pub open spec fn rfp_subscribers(b: RFPBodyV0) -> Seq<Seq<char>> {
    text_mentions(b.description@) + text_mentions(b.summary@)
}

pub fn get_subscribers(rfp_body: &RFPBodyV0) -> (r: Vec<String>)
    ensures
        strings_of(r@) == rfp_subscribers(*rfp_body),
{
    let mut result = get_text_mentions(rfp_body.description.as_str());
    let summary_mentions = get_text_mentions(rfp_body.summary.as_str());
    append_strings(&mut result, &summary_mentions);
    result
}

/// Whether a proposal is being linked to an RFP or unlinked from it.
#[derive(Clone, Copy, PartialEq, Eq, Structural)]
pub enum LinkedProposalChangeOperation {
    Add,
    Remove,
}

/// The content of an RFP body, its texts taken by their characters.
pub struct RFPBodyView {
    pub name: Seq<char>,
    pub summary: Seq<char>,
    pub description: Seq<char>,
    pub timeline: TimelineStatus,
    pub submission_deadline: u64,
}

pub open spec fn rfp_body_view(b: VersionedRFPBody) -> RFPBodyView {
    let v = b.latest();
    RFPBodyView {
        name: v.name@,
        summary: v.summary@,
        description: v.description@,
        timeline: v.timeline,
        submission_deadline: v.submission_deadline,
    }
}

impl VersionedRFPBody {
    /// The body with its timeline replaced.
    pub fn with_timeline(&self, timeline: TimelineStatus) -> (r: VersionedRFPBody)
        ensures
            rfp_body_view(r) == (RFPBodyView { timeline, ..rfp_body_view(*self) }),
    {
        match self {
            VersionedRFPBody::V0(b) => VersionedRFPBody::V0(RFPBodyV0 {
                name: b.name.clone(),
                summary: b.summary.clone(),
                description: b.description.clone(),
                timeline,
                submission_deadline: b.submission_deadline,
            }),
        }
    }
}

} // verus!
