//! Workflow programs.

use crate::json::Json;
use crate::protocol::ids::{ProjectId, Timestamp, WorkflowProgramId};
use crate::protocol::permissions::AccessPreset;
use vstd::prelude::*;

verus! {

#[derive(Clone, Copy, Debug, PartialEq, Eq, Structural)]
pub enum WorkflowRequestMode {
    Required,
    /// The program makes its own points of interaction.
    NoTask,
}

#[derive(Debug, PartialEq)]
pub struct WorkflowProgramManifest {
    pub id: WorkflowProgramId,
    pub slug: String,
    pub name: String,
    pub description: String,
    pub entrypoint: String,
    /// Whether this program starts from one immutable user task or creates its
    /// own interaction points (for example, a persistent interactive Session).
    pub request_mode: WorkflowRequestMode,
    pub params_schema: Json,
}

#[derive(Clone, Copy, Debug, PartialEq, Eq, Structural)]
pub enum WorkflowProgramSource {
    Builtin,
    User,
}

#[derive(Debug, PartialEq)]
pub struct WorkflowProgram {
    /// `None` denotes a built-in program; user programs belong to one Project.
    pub project_id: Option<ProjectId>,
    pub manifest: WorkflowProgramManifest,
    pub source: WorkflowProgramSource,
    pub definition_path: String,
    pub sha256: String,
    pub updated_at: Timestamp,
}

#[derive(Debug, PartialEq)]
pub struct WorkflowProgramSnapshot {
    pub project_id: Option<ProjectId>,
    pub manifest: WorkflowProgramManifest,
    pub source: WorkflowProgramSource,
    pub definition_path: String,
    pub sha256: String,
    /// Exact PaperMachine Python DSL ABI used to validate and execute the Run.
    pub runtime_sha256: String,
    pub source_code: String,
}

#[derive(Debug, PartialEq)]
pub struct WorkflowValidation {
    pub valid: bool,
    pub manifest: Option<WorkflowProgramManifest>,
    pub agents: Vec<WorkflowAgentDeclaration>,
    pub diagnostics: Vec<WorkflowDiagnostic>,
}

#[derive(Debug, PartialEq)]
pub struct WorkflowAgentDeclaration {
    pub class_name: String,
    pub actions: Vec<WorkflowActionDeclaration>,
    pub access: AccessPreset,
}

#[derive(Debug, PartialEq)]
pub struct WorkflowActionDeclaration {
    pub name: String,
    pub tools: Vec<String>,
}

#[derive(Debug, PartialEq)]
pub struct WorkflowDiagnostic {
    pub severity: DiagnosticSeverity,
    pub message: String,
    pub line: Option<u32>,
    pub column: Option<u32>,
}

#[derive(Clone, Copy, Debug, PartialEq, Eq, Structural)]
pub enum DiagnosticSeverity {
    Error,
    Warning,
}

impl Default for WorkflowRequestMode {
    fn default() -> (r: Self)
        ensures
            r == WorkflowRequestMode::Required,
    {
        WorkflowRequestMode::Required
    }
}

} // verus!
