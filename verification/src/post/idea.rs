//! Ideas.
use super::like::Like;
use super::PostStatus;
use crate::account::AccountId;
use vstd::prelude::*;

verus! {

pub struct Idea {
    pub id: u64,
    pub name: String,
    pub description: String,
    pub author_id: AccountId,
    pub timestamp: u64,
    pub status: PostStatus,
    pub likes: Vec<Like>,
    pub comments: Vec<u64>,
    pub solutions: Vec<u64>,
}

pub struct IdeaV1 {
    pub name: String,
    pub description: String,
}

pub enum VersionedIdea {
    V0(Idea),
    V1(IdeaV1),
}

impl VersionedIdea {
    /// The idea in its current form; only ideas of the current version have one.
    pub fn latest_version(self) -> (r: IdeaV1)
        requires
            self is V1,
        ensures
            self matches VersionedIdea::V1(v1) && r == v1,
    {
        match self {
            VersionedIdea::V1(v1) => v1,
            VersionedIdea::V0(_) => {
                proof {
                    assert(false);
                }
                IdeaV1 { name: String::new(), description: String::new() }
            },
        }
    }
}

impl From<Idea> for VersionedIdea {
    fn from(idea: Idea) -> (r: Self)
        ensures
            r == VersionedIdea::V0(idea),
    {
        VersionedIdea::V0(idea)
    }
}

impl vstd::std_specs::convert::FromSpecImpl<Idea> for VersionedIdea {
    open spec fn obeys_from_spec() -> bool {
        true
    }

    open spec fn from_spec(v: Idea) -> Self {
        VersionedIdea::V0(v)
    }
}

} // verus!
