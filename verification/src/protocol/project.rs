//! Projects and the Workspaces attached to them.

use crate::json::Json;
use crate::path::{absolute, is_absolute, PathStyle};
use crate::protocol::ids::{
    ActionInvocationId, AgentId, ArtifactId, ProjectId, SessionId, Timestamp, WorkspaceId,
};
use crate::text::{is_blank, trimmed};
use vstd::prelude::*;

verus! {

/// The directory that a user attached to a Project.
#[derive(Debug, PartialEq, Eq)]
pub struct WorkspaceAttachment {
    pub id: WorkspaceId,
    /// Grows whenever the user changes the attached path.
    pub revision: u64,
    /// Canonical absolute path of a directory that the user owns.
    pub path: String,
}

/// What is wrong with an attachment, if anything is.
pub open spec fn attachment_fault(style: PathStyle, revision: u64, path: Seq<char>) -> Option<
    Seq<char>,
> {
    if revision == 0 {
        Some("Workspace revision must be positive"@)
    } else if trimmed(path).len() == 0 {
        Some("Workspace path must not be empty"@)
    } else if !absolute(style, path) {
        Some("Workspace path must be absolute"@)
    } else {
        None
    }
}

impl Clone for WorkspaceAttachment {
    fn clone(&self) -> (r: Self)
        ensures
            r == *self,
    {
        WorkspaceAttachment { id: self.id, revision: self.revision, path: self.path.clone() }
    }
}

impl WorkspaceAttachment {
    /// The first attachment of a path, under a fresh identifier.
    pub fn single(id: WorkspaceId, path: String) -> (r: Self)
        ensures
            r == (WorkspaceAttachment { id, revision: 1, path }),
    {
        WorkspaceAttachment { id, revision: 1, path }
    }

    /// Accepts an attachment that has a revision and a path that is absolute on the host.
    pub fn validate(&self, style: PathStyle) -> (r: Result<(), String>)
        ensures
            match r {
                Ok(()) => attachment_fault(style, self.revision, self.path@) is None,
                Err(fault) => attachment_fault(style, self.revision, self.path@) == Some(fault@),
            },
    {
        if self.revision == 0 {
            return Err("Workspace revision must be positive".to_owned());
        }
        if is_blank(self.path.as_str()) {
            return Err("Workspace path must not be empty".to_owned());
        }
        if !is_absolute(style, self.path.as_str()) {
            return Err("Workspace path must be absolute".to_owned());
        }
        Ok(())
    }
}

/// A path that a user chose for a Project.
#[derive(Debug, PartialEq, Eq)]
pub struct WorkspaceSelection {
    pub path: String,
}

impl Clone for WorkspaceSelection {
    fn clone(&self) -> (r: Self)
        ensures
            r == *self,
    {
        WorkspaceSelection { path: self.path.clone() }
    }
}

impl WorkspaceSelection {
    pub fn single(path: String) -> (r: Self)
        ensures
            r.path == path,
    {
        WorkspaceSelection { path }
    }
}

#[derive(Debug, PartialEq)]
pub struct Project {
    pub id: ProjectId,
    pub name: String,
    /// Managed state is stored elsewhere and never placed in this path.
    pub workspace: WorkspaceAttachment,
    pub created_at: Timestamp,
    pub updated_at: Timestamp,
}

#[derive(Clone, Copy, Debug, PartialEq, Eq, Structural)]
pub enum ArtifactKind {
    Paper,
    Source,
    Code,
    Dataset,
    Experiment,
    Log,
    Figure,
    Report,
    Metric,
    Other,
}

#[derive(Debug, PartialEq)]
pub struct Artifact {
    pub id: ArtifactId,
    pub project_id: ProjectId,
    pub session_id: SessionId,
    pub agent_id: Option<AgentId>,
    pub action_invocation_id: Option<ActionInvocationId>,
    pub kind: ArtifactKind,
    pub name: String,
    pub media_type: String,
    pub relative_path: String,
    pub sha256: String,
    pub size_bytes: u64,
    pub metadata: Json,
    pub created_at: Timestamp,
}

/// The revision of a Project's home that is shown.
#[derive(Debug, PartialEq, Eq)]
pub struct ProjectHome {
    pub project_id: ProjectId,
    pub artifact_id: ArtifactId,
    pub source_artifact_id: ArtifactId,
    pub revision: String,
    pub updated_at: Timestamp,
}

} // verus!
