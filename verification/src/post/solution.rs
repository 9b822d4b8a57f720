//! Solutions to ideas.
use super::like::Like;
use super::sponsorship::SponsorshipToken;
use super::PostStatus;
use crate::account::AccountId;
use vstd::prelude::*;

verus! {

pub struct SolutionV0 {
    pub id: u64,
    pub name: String,
    pub description: String,
    pub author_id: AccountId,
    pub timestamp: u64,
    pub status: PostStatus,
    pub likes: Vec<Like>,
    pub comments: Vec<u64>,
    pub idea_id: u64,
    pub attestations: Vec<u64>,
    pub sponsorships: Vec<u64>,
}

pub struct SolutionV1 {
    pub name: String,
    pub description: String,
}

pub struct SolutionV2 {
    pub name: String,
    pub description: String,
    pub requested_sponsor: Option<AccountId>,
    pub requested_sponsorship_amount: u128,
    pub requested_sponsorship_token: Option<SponsorshipToken>,
}

pub enum VersionedSolution {
    V0(SolutionV0),
    V1(SolutionV1),
    V2(SolutionV2),
}

/// A solution of the second version in the current shape, asking for no sponsorship.
pub open spec fn solution_v1_upgraded(v1: SolutionV1) -> SolutionV2 {
    SolutionV2 {
        name: v1.name,
        description: v1.description,
        requested_sponsor: None,
        requested_sponsorship_amount: 0,
        requested_sponsorship_token: None,
    }
}

/// The current form of a solution that has one: versions 1 and 2.
pub open spec fn solution_latest(s: VersionedSolution) -> SolutionV2 {
    match s {
        VersionedSolution::V2(v2) => v2,
        VersionedSolution::V1(v1) => solution_v1_upgraded(v1),
        VersionedSolution::V0(_) => arbitrary(),
    }
}

/// Why a solution was refused.
#[derive(Debug, Clone, Copy, PartialEq, Eq, Structural)]
pub enum SolutionError {
    /// It asks for money without naming the token and the sponsor.
    MissingSponsorshipDetails,
}

impl SolutionError {
    /// The text of the message.
    pub open spec fn message_text(&self) -> Seq<char> {
        "Solution that requires funding must specify sponsorship token and sponsor"@
    }

    pub fn message(&self) -> (r: String)
        ensures
            r@ == self.message_text(),
    {
        String::from_str("Solution that requires funding must specify sponsorship token and sponsor")
    }
}

impl VersionedSolution {
    /// The solution in its current form; the first version has none.
    pub fn latest_version(self) -> (r: SolutionV2)
        requires
            !(self is V0),
        ensures
            r == solution_latest(self),
    {
        match self {
            VersionedSolution::V2(v2) => v2,
            VersionedSolution::V1(v1) => SolutionV2 {
                name: v1.name,
                description: v1.description,
                requested_sponsor: None,
                requested_sponsorship_amount: 0,
                requested_sponsorship_token: None,
            },
            VersionedSolution::V0(_) => {
                proof {
                    assert(false);
                }
                SolutionV2 {
                    name: String::new(),
                    description: String::new(),
                    requested_sponsor: None,
                    requested_sponsorship_amount: 0,
                    requested_sponsorship_token: None,
                }
            },
        }
    }

    /// A solution that asks for a sponsorship must name the token and the sponsor.
    /// Only solutions of the current version can be checked.
    pub fn validate(&self) -> (r: Result<(), SolutionError>)
        requires
            *self is V2,
        ensures
            self matches VersionedSolution::V2(s) && (r is Err <==> (s.requested_sponsorship_amount > 0 && (
            s.requested_sponsorship_token is None || s.requested_sponsor is None))),
    {
        match self {
            VersionedSolution::V2(solution) => {
                if solution.requested_sponsorship_amount > 0 && (solution.requested_sponsorship_token.is_none()
                    || solution.requested_sponsor.is_none()) {
                    Err(SolutionError::MissingSponsorshipDetails)
                } else {
                    Ok(())
                }
            },
            _ => {
                proof {
                    assert(false);
                }
                Ok(())
            },
        }
    }
}

impl From<SolutionV0> for VersionedSolution {
    fn from(solution: SolutionV0) -> (r: Self)
        ensures
            r == VersionedSolution::V0(solution),
    {
        VersionedSolution::V0(solution)
    }
}

impl vstd::std_specs::convert::FromSpecImpl<SolutionV0> for VersionedSolution {
    open spec fn obeys_from_spec() -> bool {
        true
    }

    open spec fn from_spec(v: SolutionV0) -> Self {
        VersionedSolution::V0(v)
    }
}

} // verus!
