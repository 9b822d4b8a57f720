//! Comments (and, without a parent, blog entries).
use super::like::Like;
use crate::account::AccountId;
use vstd::prelude::*;

verus! {

pub struct CommentV0 {
    pub author_id: AccountId,
    pub timestamp: u64,
    pub description: String,
    pub likes: Vec<Like>,
    pub comments: Vec<u64>,
}

pub struct Comment {
    pub id: u64,
    pub author_id: AccountId,
    pub timestamp: u64,
    pub description: String,
    pub likes: Vec<Like>,
    pub comments: Vec<u64>,
}

pub struct CommentV2 {
    pub description: String,
}

pub enum VersionedComment {
    V0(CommentV0),
    V1(Comment),
    V2(CommentV2),
}

impl VersionedComment {
    /// The comment in its current form; only comments of the current version have one.
    pub fn latest_version(self) -> (r: CommentV2)
        requires
            self is V2,
        ensures
            self matches VersionedComment::V2(v2) && r == v2,
    {
        match self {
            VersionedComment::V2(v2) => v2,
            _ => {
                proof {
                    assert(false);
                }
                CommentV2 { description: String::new() }
            },
        }
    }

    /// The comment in its first-version shape: a first-version comment gets id 0.
    pub fn into_comment(self) -> (r: Comment)
        requires
            !(self is V2),
        ensures
            self matches VersionedComment::V1(v1) ==> r == v1,
            self matches VersionedComment::V0(v0) ==> r == (Comment {
                id: 0,
                author_id: v0.author_id,
                timestamp: v0.timestamp,
                description: v0.description,
                likes: v0.likes,
                comments: v0.comments,
            }),
    {
        match self {
            VersionedComment::V0(v0) => Comment {
                id: 0,
                author_id: v0.author_id,
                timestamp: v0.timestamp,
                description: v0.description,
                likes: v0.likes,
                comments: v0.comments,
            },
            VersionedComment::V1(v1) => v1,
            VersionedComment::V2(_) => {
                proof {
                    assert(false);
                }
                Comment {
                    id: 0,
                    author_id: String::new(),
                    timestamp: 0,
                    description: String::new(),
                    likes: Vec::new(),
                    comments: Vec::new(),
                }
            },
        }
    }
}

impl From<Comment> for VersionedComment {
    fn from(c: Comment) -> (r: Self)
        ensures
            r == VersionedComment::V1(c),
    {
        VersionedComment::V1(c)
    }
}

impl vstd::std_specs::convert::FromSpecImpl<Comment> for VersionedComment {
    open spec fn obeys_from_spec() -> bool {
        true
    }

    open spec fn from_spec(v: Comment) -> Self {
        VersionedComment::V1(v)
    }
}

} // verus!
