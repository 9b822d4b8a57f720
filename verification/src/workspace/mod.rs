//! Workspaces: sets of views owned by communities.
use crate::community::CommunityHandle;
use crate::project::{byte_len_within, bytes_within};
use vstd::prelude::*;

verus! {

pub type WorkspaceId = usize;

pub struct WorkspaceInputs {
    pub name: String,
    pub description: String,
}

pub struct WorkspaceMetadata {
    pub id: WorkspaceId,
    pub name: String,
    pub description: String,
    /// The owner communities, each once.
    pub owner_community_handles: Vec<CommunityHandle>,
}

pub struct Workspace {
    pub metadata: WorkspaceMetadata,
    /// Ids of the workspace's views, each once.
    pub view_ids: Vec<String>,
}

pub struct WorkspaceViewInputsMetadata {
    pub workspace_id: WorkspaceId,
    pub kind: String,
    pub title: String,
    pub description: String,
}

/// Workspace view configuration serialized as JSON string
pub type WorkspaceViewConfig = String;

pub struct WorkspaceViewInputs {
    pub metadata: WorkspaceViewInputsMetadata,
    pub config: WorkspaceViewConfig,
}

pub type WorkspaceViewId = String;

pub struct WorkspaceViewMetadata {
    pub id: WorkspaceViewId,
    pub workspace_id: WorkspaceId,
    pub kind: String,
    pub title: String,
    pub description: String,
}

pub struct WorkspaceView {
    pub metadata: WorkspaceViewMetadata,
    pub config: WorkspaceViewConfig,
}

#[derive(Clone, Copy, PartialEq, Eq, Structural)]
pub struct WorkspacePermissions {
    pub can_configure: bool,
}

/// Why a workspace was refused.
#[derive(Debug, Clone, Copy, PartialEq, Eq, Structural)]
pub enum WorkspaceError {
    NameLength,
    DescriptionLength,
    NoOwner,
}

impl WorkspaceError {
    /// The text of the message.
    pub open spec fn message_text(&self) -> Seq<char> {
        match self {
            WorkspaceError::NameLength => "Workspace name must contain from 3 to 30 characters"@,
            WorkspaceError::DescriptionLength => "Workspace description must contain from 6 to 60 characters"@,
            WorkspaceError::NoOwner => "Workspace must have at least one owner community"@,
        }
    }

    pub fn message(&self) -> (r: String)
        ensures
            r@ == self.message_text(),
    {
        match self {
            WorkspaceError::NameLength => String::from_str("Workspace name must contain from 3 to 30 characters"),
            WorkspaceError::DescriptionLength => String::from_str(
                "Workspace description must contain from 6 to 60 characters",
            ),
            WorkspaceError::NoOwner => String::from_str("Workspace must have at least one owner community"),
        }
    }
}

/// The first rule that a workspace breaks, if any; lengths are counted in bytes.
pub open spec fn workspace_error(w: Workspace) -> Option<WorkspaceError> {
    if !bytes_within(w.metadata.name@, 3, 30) {
        Some(WorkspaceError::NameLength)
    } else if !bytes_within(w.metadata.description@, 6, 60) {
        Some(WorkspaceError::DescriptionLength)
    } else if w.metadata.owner_community_handles@.len() < 1 {
        Some(WorkspaceError::NoOwner)
    } else {
        None
    }
}

impl Workspace {
    pub fn validate(&self) -> (r: Result<(), WorkspaceError>)
        ensures
            match r {
                Ok(()) => workspace_error(*self) is None,
                Err(e) => workspace_error(*self) == Some(e),
            },
    {
        if !byte_len_within(&self.metadata.name, 3, 30) {
            return Err(WorkspaceError::NameLength);
        }
        if !byte_len_within(&self.metadata.description, 6, 60) {
            return Err(WorkspaceError::DescriptionLength);
        }
        if self.metadata.owner_community_handles.len() < 1 {
            return Err(WorkspaceError::NoOwner);
        }
        Ok(())
    }
}

} // verus!
