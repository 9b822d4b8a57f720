//! Blog entries.
use super::like::Like;
use crate::account::AccountId;
use vstd::prelude::*;

verus! {

pub struct Blog {
    pub id: u64,
    pub author_id: AccountId,
    pub timestamp: u64,
    pub description: String,
    pub likes: Vec<Like>,
    pub comments: Vec<u64>,
}

pub struct BlogV1 {
    pub description: String,
}

pub enum VersionedBlog {
    V0(Blog),
    V1(BlogV1),
}

impl VersionedBlog {
    /// The entry in its current form; only entries of the current version have one.
    pub fn latest_version(self) -> (r: BlogV1)
        requires
            self is V1,
        ensures
            self matches VersionedBlog::V1(v1) && r == v1,
    {
        match self {
            VersionedBlog::V1(v1) => v1,
            VersionedBlog::V0(_) => {
                proof {
                    assert(false);
                }
                BlogV1 { description: String::new() }
            },
        }
    }

    /// The entry in its first-version shape, with id 0.
    pub fn into_blog(self) -> (r: Blog)
        requires
            self is V0,
        ensures
            self matches VersionedBlog::V0(v0) && r == (Blog {
                id: 0,
                author_id: v0.author_id,
                timestamp: v0.timestamp,
                description: v0.description,
                likes: v0.likes,
                comments: v0.comments,
            }),
    {
        match self {
            VersionedBlog::V0(v0) => Blog {
                id: 0,
                author_id: v0.author_id,
                timestamp: v0.timestamp,
                description: v0.description,
                likes: v0.likes,
                comments: v0.comments,
            },
            VersionedBlog::V1(_) => {
                proof {
                    assert(false);
                }
                Blog {
                    id: 0,
                    author_id: String::new(),
                    timestamp: 0,
                    description: String::new(),
                    likes: Vec::new(),
                    comments: Vec::new(),
                }
            },
        }
    }
}

impl From<Blog> for VersionedBlog {
    fn from(c: Blog) -> (r: Self)
        ensures
            r == VersionedBlog::V0(c),
    {
        VersionedBlog::V0(c)
    }
}

impl vstd::std_specs::convert::FromSpecImpl<Blog> for VersionedBlog {
    open spec fn obeys_from_spec() -> bool {
        true
    }

    open spec fn from_spec(v: Blog) -> Self {
        VersionedBlog::V0(v)
    }
}

} // verus!
