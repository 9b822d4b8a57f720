//! Projects owned by communities.
use crate::community::CommunityHandle;
use vstd::prelude::*;
use vstd::utf8::encode_utf8;

verus! {

pub struct ProjectMetadata {
    pub id: String,
    pub tag: String,
    pub name: String,
    pub description: String,
    pub owners: Vec<CommunityHandle>,
}

pub struct Project {
    pub id: String,
    pub tag: String,
    pub name: String,
    pub description: String,
    pub owners: Vec<CommunityHandle>,
    /// Project views indexed by their ids and serialized as JSON string
    pub views: String,
}

/// Why a project was refused.
#[derive(Debug, Clone, Copy, PartialEq, Eq, Structural)]
pub enum ProjectError {
    NameLength,
    DescriptionLength,
    TagLength,
}

impl ProjectError {
    /// The text of the message.
    pub open spec fn message_text(&self) -> Seq<char> {
        match self {
            ProjectError::NameLength => "Project name must contain from 3 to 30 characters"@,
            ProjectError::DescriptionLength => "Project description must contain from 6 to 60 characters"@,
            ProjectError::TagLength => "Project tag must contain from 3 to 20 characters"@,
        }
    }

    pub fn message(&self) -> (r: String)
        ensures
            r@ == self.message_text(),
    {
        match self {
            ProjectError::NameLength => String::from_str("Project name must contain from 3 to 30 characters"),
            ProjectError::DescriptionLength => String::from_str(
                "Project description must contain from 6 to 60 characters",
            ),
            ProjectError::TagLength => String::from_str("Project tag must contain from 3 to 20 characters"),
        }
    }
}

/// The length of a text in bytes of its UTF-8 encoding, as a machine-sized count.
pub open spec fn byte_len(s: Seq<char>) -> usize {
    encode_utf8(s).len() as usize
}

/// The length in bytes of `s` lies in `lo..=hi`.
pub open spec fn bytes_within(s: Seq<char>, lo: int, hi: int) -> bool {
    lo <= byte_len(s) <= hi
}

pub fn byte_len_within(s: &String, lo: usize, hi: usize) -> (r: bool)
    ensures
        r == bytes_within(s@, lo as int, hi as int),
{
    let n = s.as_str().len();
    lo <= n && n <= hi
}

/// The first rule that a project breaks, if any; lengths are counted in bytes.
pub open spec fn project_error(p: Project) -> Option<ProjectError> {
    if !bytes_within(p.name@, 3, 30) {
        Some(ProjectError::NameLength)
    } else if !bytes_within(p.description@, 6, 60) {
        Some(ProjectError::DescriptionLength)
    } else if !bytes_within(p.tag@, 3, 20) {
        Some(ProjectError::TagLength)
    } else {
        None
    }
}

impl Project {
    pub fn validate(&self) -> (r: Result<(), ProjectError>)
        ensures
            match r {
                Ok(()) => project_error(*self) is None,
                Err(e) => project_error(*self) == Some(e),
            },
    {
        if !byte_len_within(&self.name, 3, 30) {
            return Err(ProjectError::NameLength);
        }
        if !byte_len_within(&self.description, 6, 60) {
            return Err(ProjectError::DescriptionLength);
        }
        if !byte_len_within(&self.tag, 3, 20) {
            return Err(ProjectError::TagLength);
        }
        Ok(())
    }
}

} // verus!
