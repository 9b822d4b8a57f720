//! Posts of the board: ideas, solutions, sponsorships and comments.
pub mod blog;
pub mod comment;
pub mod github;
pub mod idea;
pub mod like;
pub mod solution;
pub mod sponsorship;
pub mod submission;

use crate::account::AccountId;
use comment::VersionedComment;
use idea::VersionedIdea;
use like::Like;
use solution::{solution_latest, VersionedSolution};
use sponsorship::VersionedSponsorship;
use vstd::prelude::*;

verus! {

pub type PostId = u64;

/// The id of the imaginary top post, the landing page.
pub const ROOT_POST_ID: u64 = 0xffff_ffff_ffff_ffffu64;

#[derive(Clone, Copy, PartialEq, Eq, Structural)]
pub enum PostType {
    Comment,
    Idea,
    Solution,
    Attestation,
    Sponsorship,
    Github,
}

pub enum PostStatus {
    Open,
    Closed { reason: String },
}

pub enum VersionedPost {
    V0(Post),
}

pub struct Post {
    pub id: PostId,
    pub author_id: AccountId,
    pub likes: Vec<Like>,
    pub snapshot: PostSnapshot,
    /// Earlier snapshots, oldest first; the current one is not among them.
    pub snapshot_history: Vec<PostSnapshot>,
}

impl VersionedPost {
    pub open spec fn inner(self) -> Post {
        match self {
            VersionedPost::V0(p) => p,
        }
    }
}

impl From<VersionedPost> for Post {
    fn from(vp: VersionedPost) -> (r: Self)
        ensures
            r == vp.inner(),
    {
        match vp {
            VersionedPost::V0(v0) => v0,
        }
    }
}

impl vstd::std_specs::convert::FromSpecImpl<VersionedPost> for Post {
    open spec fn obeys_from_spec() -> bool {
        true
    }

    open spec fn from_spec(v: VersionedPost) -> Self {
        v.inner()
    }
}

impl From<Post> for VersionedPost {
    fn from(p: Post) -> (r: Self)
        ensures
            r == VersionedPost::V0(p),
    {
        VersionedPost::V0(p)
    }
}

impl vstd::std_specs::convert::FromSpecImpl<Post> for VersionedPost {
    open spec fn obeys_from_spec() -> bool {
        true
    }

    open spec fn from_spec(v: Post) -> Self {
        VersionedPost::V0(v)
    }
}

pub struct PostSnapshot {
    pub editor_id: AccountId,
    pub timestamp: u64,
    pub labels: Vec<String>,
    pub body: PostBody,
}

pub enum PostBody {
    Comment(VersionedComment),
    Idea(VersionedIdea),
    Solution(VersionedSolution),
    Sponsorship(VersionedSponsorship),
}

/// The body is of a version that has a current form (and so a name or description).
pub open spec fn body_is_current(b: PostBody) -> bool {
    match b {
        PostBody::Comment(c) => c is V2,
        PostBody::Idea(i) => i is V1,
        PostBody::Solution(s) => !(s is V0),
        PostBody::Sponsorship(s) => s is V1,
    }
}

/// The description of a body of a current version.
pub open spec fn body_description(b: PostBody) -> Seq<char> {
    match b {
        PostBody::Comment(VersionedComment::V2(c)) => c.description@,
        PostBody::Idea(VersionedIdea::V1(i)) => i.description@,
        PostBody::Solution(s) => solution_latest(s).description@,
        PostBody::Sponsorship(VersionedSponsorship::V1(s)) => s.description@,
        _ => Seq::empty(),
    }
}

/// The name of a body of a current version; comments have none.
pub open spec fn body_name(b: PostBody) -> Seq<char> {
    match b {
        PostBody::Idea(VersionedIdea::V1(i)) => i.name@,
        PostBody::Solution(s) => solution_latest(s).name@,
        PostBody::Sponsorship(VersionedSponsorship::V1(s)) => s.name@,
        _ => Seq::empty(),
    }
}

pub open spec fn post_type_name(b: PostBody, has_parent: bool) -> Seq<char> {
    match b {
        PostBody::Comment(_) => if has_parent {
            "comment"@
        } else {
            "blog"@
        },
        PostBody::Idea(_) => "idea"@,
        PostBody::Solution(_) => "solution"@,
        PostBody::Sponsorship(_) => "sponsorship"@,
    }
}

impl PostBody {
    /// The kind of post, as shown to users; a comment without a parent is a blog entry.
    pub fn get_post_type(&self, parent_id: Option<PostId>) -> (r: &'static str)
        ensures
            r@ == post_type_name(*self, parent_id is Some),
    {
        match self {
            PostBody::Comment(_) => {
                if parent_id.is_some() {
                    return "comment";
                }
                "blog"
            },
            PostBody::Idea(_) => "idea",
            PostBody::Solution(_) => "solution",
            PostBody::Sponsorship(_) => "sponsorship",
        }
    }

    /// Whether the body is of a version that has a current form.
    pub fn is_current(&self) -> (r: bool)
        ensures
            r == body_is_current(*self),
    {
        match self {
            PostBody::Comment(c) => matches!(c, VersionedComment::V2(_)),
            PostBody::Idea(i) => matches!(i, VersionedIdea::V1(_)),
            PostBody::Solution(s) => !matches!(s, VersionedSolution::V0(_)),
            PostBody::Sponsorship(s) => matches!(s, VersionedSponsorship::V1(_)),
        }
    }

    /// A copy of the description of a body of a current version.
    pub fn description(&self) -> (r: String)
        requires
            body_is_current(*self),
        ensures
            r@ == body_description(*self),
    {
        match self {
            PostBody::Comment(VersionedComment::V2(c)) => c.description.clone(),
            PostBody::Idea(VersionedIdea::V1(i)) => i.description.clone(),
            PostBody::Solution(VersionedSolution::V2(s)) => s.description.clone(),
            PostBody::Solution(VersionedSolution::V1(s)) => s.description.clone(),
            PostBody::Sponsorship(VersionedSponsorship::V1(s)) => s.description.clone(),
            _ => {
                proof {
                    assert(false);
                }
                String::new()
            },
        }
    }

    /// A copy of the name of a body of a current version (empty for comments).
    pub fn name(&self) -> (r: String)
        requires
            body_is_current(*self),
        ensures
            r@ == body_name(*self),
    {
        match self {
            PostBody::Idea(VersionedIdea::V1(i)) => i.name.clone(),
            PostBody::Solution(VersionedSolution::V2(s)) => s.name.clone(),
            PostBody::Solution(VersionedSolution::V1(s)) => s.name.clone(),
            PostBody::Sponsorship(VersionedSponsorship::V1(s)) => s.name.clone(),
            _ => String::new(),
        }
    }
}

/// The description of a post's current body, whose version must have one.
pub fn get_post_description(post: Post) -> (r: String)
    requires
        body_is_current(post.snapshot.body),
    ensures
        r@ == body_description(post.snapshot.body),
{
    post.snapshot.body.description()
}

} // verus!
