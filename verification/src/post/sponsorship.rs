//! Sponsorships of solutions.
use super::like::Like;
use super::PostStatus;
use crate::account::AccountId;
use vstd::prelude::*;

verus! {

pub enum SponsorshipToken {
    NEAR,
    NEP141 { address: AccountId },
    USD,
}

pub struct Sponsorship {
    pub id: u64,
    pub name: String,
    pub description: String,
    pub author_id: AccountId,
    pub timestamp: u64,
    pub status: PostStatus,
    pub likes: Vec<Like>,
    pub comments: Vec<u64>,
    pub submission_id: u64,
    pub sponsorship_token: SponsorshipToken,
    pub amount: u128,
    pub supervisor: AccountId,
}

pub struct SponsorshipV1 {
    pub name: String,
    pub description: String,
    pub sponsorship_token: SponsorshipToken,
    pub amount: u128,
    pub supervisor: AccountId,
}

pub enum VersionedSponsorship {
    V0(Sponsorship),
    V1(SponsorshipV1),
}

impl VersionedSponsorship {
    /// The sponsorship in its current form; only the current version has one.
    pub fn latest_version(self) -> (r: SponsorshipV1)
        requires
            self is V1,
        ensures
            self matches VersionedSponsorship::V1(v1) && r == v1,
    {
        match self {
            VersionedSponsorship::V1(v1) => v1,
            VersionedSponsorship::V0(_) => {
                proof {
                    assert(false);
                }
                SponsorshipV1 {
                    name: String::new(),
                    description: String::new(),
                    sponsorship_token: SponsorshipToken::NEAR,
                    amount: 0,
                    supervisor: String::new(),
                }
            },
        }
    }
}

impl From<Sponsorship> for VersionedSponsorship {
    fn from(s: Sponsorship) -> (r: Self)
        ensures
            r == VersionedSponsorship::V0(s),
    {
        VersionedSponsorship::V0(s)
    }
}

impl vstd::std_specs::convert::FromSpecImpl<Sponsorship> for VersionedSponsorship {
    open spec fn obeys_from_spec() -> bool {
        true
    }

    open spec fn from_spec(v: Sponsorship) -> Self {
        VersionedSponsorship::V0(v)
    }
}

} // verus!
