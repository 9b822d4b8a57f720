//! Submissions, the earlier name of solutions.
use super::like::Like;
use super::PostStatus;
use crate::account::AccountId;
use vstd::prelude::*;

verus! {

pub struct SubmissionV0 {
    pub id: u64,
    pub name: String,
    pub description: String,
    pub author_id: AccountId,
    pub timestamp: u64,
    pub status: PostStatus,
    pub likes: Vec<Like>,
    pub comments: Vec<u64>,
    pub idea_id: u64,
    pub attestations: Vec<u64>,
    pub sponsorships: Vec<u64>,
}

pub struct SubmissionV1 {
    pub name: String,
    pub description: String,
}

pub struct SubmissionV2 {
    pub name: String,
    pub description: String,
}

pub enum VersionedSubmission {
    V0(SubmissionV0),
    V1(SubmissionV1),
    V2(SubmissionV2),
}

impl VersionedSubmission {
    /// The submission in its current form; only the current version has one.
    pub fn latest_version(self) -> (r: SubmissionV2)
        requires
            self is V2,
        ensures
            self matches VersionedSubmission::V2(v2) && r == v2,
    {
        match self {
            VersionedSubmission::V2(v2) => v2,
            _ => {
                proof {
                    assert(false);
                }
                SubmissionV2 { name: String::new(), description: String::new() }
            },
        }
    }
}

impl From<SubmissionV0> for VersionedSubmission {
    fn from(s: SubmissionV0) -> (r: Self)
        ensures
            r == VersionedSubmission::V0(s),
    {
        VersionedSubmission::V0(s)
    }
}

impl vstd::std_specs::convert::FromSpecImpl<SubmissionV0> for VersionedSubmission {
    open spec fn obeys_from_spec() -> bool {
        true
    }

    open spec fn from_spec(v: SubmissionV0) -> Self {
        VersionedSubmission::V0(v)
    }
}

} // verus!
