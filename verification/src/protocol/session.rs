//! Sessions, their Agents, and what these do.

use crate::json::{Decimal, Json};
use crate::protocol::ids::{
    ActionAttemptId, ActionInvocationId, AgentId, ControlMessageId, HumanRequestId, ProjectId,
    SessionId, StepId, Timestamp, TurnId,
};
use crate::protocol::model::{
    no_usage, ModelResponseFormat, ModelRouteSnapshot, ReasoningEffort, TokenUsage,
    WebSearchContextSize,
};
use crate::protocol::permissions::{AccessPreset, TurnEnvironmentSnapshot};
use crate::protocol::prompt::PromptSnapshot;
use crate::protocol::tool_set::ToolSetSnapshot;
use crate::protocol::workflow::WorkflowProgramSnapshot;
use vstd::prelude::*;

verus! {

#[derive(Clone, Copy, Debug, PartialEq, Eq, Structural)]
pub enum SessionStatus {
    Created,
    Running,
    WaitingForInput,
    WaitingForDeadline,
    Paused,
    Closing,
    Completed,
    Failed,
    Cancelled,
}

impl SessionStatus {
    /// Whether nothing follows.
    pub open spec fn ended(self) -> bool {
        match self {
            SessionStatus::Completed
            | SessionStatus::Failed
            | SessionStatus::Cancelled => true,
            _ => false,
        }
    }

    pub fn is_terminal(self) -> (r: bool)
        ensures
            r == self.ended(),
    {
        match self {
            SessionStatus::Completed
            | SessionStatus::Failed
            | SessionStatus::Cancelled => true,
            _ => false,
        }
    }
}

#[derive(Clone, Copy, Debug, PartialEq, Eq, Structural)]
pub enum SessionTriggerKind {
    /// A person launched the Session from another Session.
    User,
    /// A person or API client launched the Session directly from a Project.
    Manual,
}

#[derive(Debug, PartialEq)]
pub struct SessionTrigger {
    pub kind: SessionTriggerKind,
    pub source_session_id: Option<SessionId>,
}

/// One durable runtime instance of a WorkflowProgram.
#[derive(Debug, PartialEq)]
pub struct Session {
    pub id: SessionId,
    pub project_id: ProjectId,
    pub program: WorkflowProgramSnapshot,
    pub title: String,
    /// Immutable request supplied when this Session was launched.
    pub request: String,
    /// Optional high-priority instructions shared by its Agents.
    pub instructions: String,
    pub trigger: SessionTrigger,
    pub default_model: String,
    pub access: AccessPreset,
    pub enabled_skills: Vec<String>,
    /// Per-Session overrides keyed by Python Agent class name. Session access
    /// remains the hard upper bound.
    pub agent_access_overrides: Vec<(String, AccessPreset)>,
    pub status: SessionStatus,
    /// Final status selected when `status == Closing`; otherwise `None`.
    pub closing_status: Option<SessionStatus>,
    pub params: Json,
    pub output: Option<Json>,
    pub error: Option<String>,
    pub attention_required: bool,
    pub usage: SessionUsage,
    /// Archival is presentation/lifecycle metadata, not an execution status.
    pub archived_at: Option<Timestamp>,
    pub created_at: Timestamp,
    pub updated_at: Timestamp,
}

#[derive(Clone, Copy, Debug, PartialEq, Eq, Structural)]
pub enum SessionEffectStatus {
    Started,
    Completed,
    Failed,
}

#[derive(Debug, PartialEq)]
pub struct SessionEffect {
    pub session_id: SessionId,
    /// Deterministic logical path assigned by the Python DSL runtime.
    pub key: String,
    pub kind: String,
    pub request_sha256: String,
    pub payload: Json,
    pub status: SessionEffectStatus,
    pub result: Option<Json>,
    pub error: Option<String>,
    pub started_at: Timestamp,
    pub completed_at: Option<Timestamp>,
}

#[derive(Debug, PartialEq)]
pub struct SessionUsage {
    pub agents_created: u32,
    pub actions_started: u32,
    pub actions_completed: u32,
    pub action_steps: u32,
    pub hosted_search_calls: u32,
    pub tokens: TokenUsage,
    pub wall_time_seconds: u64,
    pub estimated_cost_usd: Option<Decimal>,
}

/// One model identity owned by a Session. Each Agent has an independent
/// durable rollout, prompt, model route policy, access ceiling, and skills.
#[derive(Debug, PartialEq)]
pub struct Agent {
    pub id: AgentId,
    pub session_id: SessionId,
    pub class_name: String,
    pub name: String,
    pub role: String,
    pub system_prompt: String,
    pub model: String,
    pub access: AccessPreset,
    pub skills: Vec<String>,
    pub created_at: Timestamp,
}

#[derive(Clone, Copy, Debug, PartialEq, Eq, Structural)]
pub enum ActionStatus {
    Scheduled,
    Running,
    Completed,
    Failed,
    Interrupted,
    Cancelled,
}

impl ActionStatus {
    /// Whether nothing follows.
    pub open spec fn ended(self) -> bool {
        match self {
            ActionStatus::Completed
            | ActionStatus::Failed
            | ActionStatus::Interrupted
            | ActionStatus::Cancelled => true,
            _ => false,
        }
    }

    pub fn is_terminal(self) -> (r: bool)
        ensures
            r == self.ended(),
    {
        match self {
            ActionStatus::Completed
            | ActionStatus::Failed
            | ActionStatus::Interrupted
            | ActionStatus::Cancelled => true,
            _ => false,
        }
    }
}

#[derive(Debug, PartialEq)]
pub enum ActionSource {
    Workflow,
    HumanRequest { request_id: HumanRequestId },
    Agent { sender_agent_id: AgentId },
}

#[derive(Debug, PartialEq)]
pub struct ActionInvocation {
    pub id: ActionInvocationId,
    pub session_id: SessionId,
    pub agent_id: AgentId,
    pub action_name: String,
    /// Stable Action method contract (normally its Python docstring/prompt).
    pub contract: String,
    pub arguments: Json,
    /// Exact user-role input fixed when the Action is admitted.
    pub input: String,
    pub source: ActionSource,
    pub requested_tools: Vec<String>,
    pub tools_enabled: bool,
    pub web_search_context_size: Option<WebSearchContextSize>,
    pub reasoning_effort: Option<ReasoningEffort>,
    pub response_format: Option<ModelResponseFormat>,
    pub status: ActionStatus,
    pub output: Option<Json>,
    pub error: Option<String>,
    pub created_at: Timestamp,
    pub updated_at: Timestamp,
}

#[derive(Debug, PartialEq)]
pub struct ActionAttempt {
    pub id: ActionAttemptId,
    pub invocation_id: ActionInvocationId,
    pub number: u32,
    pub turn_id: Option<TurnId>,
    pub status: ActionStatus,
    pub guidance: Option<String>,
    pub error: Option<String>,
    pub created_at: Timestamp,
    pub updated_at: Timestamp,
}

#[derive(Clone, Copy, Debug, PartialEq, Eq, Structural)]
pub enum HumanRequestStatus {
    Open,
    Answered,
    Cancelled,
}

#[derive(Debug, PartialEq)]
pub struct HumanRequest {
    pub id: HumanRequestId,
    pub session_id: SessionId,
    pub agent_id: AgentId,
    pub question: String,
    pub response_schema: Json,
    pub status: HumanRequestStatus,
    pub answer: Option<Json>,
    pub created_at: Timestamp,
    pub resolved_at: Option<Timestamp>,
}

#[derive(Clone, Copy, Debug, PartialEq, Eq, Structural)]
pub enum ControlMessageKind {
    Guide,
    Interrupt,
    Finish,
}

#[derive(Clone, Copy, Debug, PartialEq, Eq, Structural)]
pub enum ControlMessageStatus {
    Pending,
    Claimed,
    Applied,
}

#[derive(Debug, PartialEq)]
pub struct ControlMessage {
    pub id: ControlMessageId,
    pub session_id: SessionId,
    pub agent_id: AgentId,
    pub action_invocation_id: Option<ActionInvocationId>,
    pub kind: ControlMessageKind,
    pub content: String,
    pub status: ControlMessageStatus,
    pub created_at: Timestamp,
    pub claimed_turn_id: Option<TurnId>,
    pub claimed_at: Option<Timestamp>,
    pub applied_at: Option<Timestamp>,
}

#[derive(Clone, Copy, Debug, PartialEq, Eq, Structural)]
pub enum TurnStatus {
    Queued,
    Running,
    Paused,
    Completed,
    Failed,
    Interrupted,
    Cancelled,
}

impl TurnStatus {
    /// Whether nothing follows.
    pub open spec fn ended(self) -> bool {
        match self {
            TurnStatus::Completed
            | TurnStatus::Failed
            | TurnStatus::Interrupted
            | TurnStatus::Cancelled => true,
            _ => false,
        }
    }

    pub fn is_terminal(self) -> (r: bool)
        ensures
            r == self.ended(),
    {
        match self {
            TurnStatus::Completed
            | TurnStatus::Failed
            | TurnStatus::Interrupted
            | TurnStatus::Cancelled => true,
            _ => false,
        }
    }
}

#[derive(Debug, PartialEq)]
pub struct SkillSnapshot {
    pub slug: String,
    pub sha256: String,
}

#[derive(Debug, PartialEq)]
pub struct Turn {
    pub id: TurnId,
    pub agent_id: AgentId,
    pub status: TurnStatus,
    pub input: String,
    pub output: Option<String>,
    pub model_route: ModelRouteSnapshot,
    pub prompt: PromptSnapshot,
    pub environment: TurnEnvironmentSnapshot,
    pub tool_set: ToolSetSnapshot,
    pub tools_enabled: bool,
    pub web_search_context_size: Option<WebSearchContextSize>,
    pub response_format: Option<ModelResponseFormat>,
    pub skill_snapshots: Vec<SkillSnapshot>,
    pub usage: TokenUsage,
    pub completed_model_steps: u32,
    pub hosted_search_calls_used: u32,
    pub checkpoint_message: Option<String>,
    pub error: Option<String>,
    pub created_at: Timestamp,
    pub updated_at: Timestamp,
}

#[derive(Clone, Copy, Debug, PartialEq, Eq, Structural)]
pub enum StepKind {
    Model,
    Tool,
    Workflow,
    System,
}

#[derive(Clone, Copy, Debug, PartialEq, Eq, Structural)]
pub enum StepStatus {
    Running,
    Completed,
    Failed,
    Aborted,
    Cancelled,
}

#[derive(Debug, PartialEq)]
pub struct AgentStep {
    pub id: StepId,
    pub turn_id: TurnId,
    pub sequence: u32,
    pub kind: StepKind,
    pub name: String,
    pub tool_call_id: Option<String>,
    pub status: StepStatus,
    pub input: Json,
    pub output: Option<Json>,
    pub usage: TokenUsage,
    pub duration_ms: Option<u64>,
    pub created_at: Timestamp,
    pub updated_at: Timestamp,
}

impl Default for SessionTriggerKind {
    fn default() -> (r: Self)
        ensures
            r == SessionTriggerKind::Manual,
    {
        SessionTriggerKind::Manual
    }
}

impl Default for SessionTrigger {
    fn default() -> (r: Self)
        ensures
            r.kind == SessionTriggerKind::Manual,
            r.source_session_id is None,
    {
        SessionTrigger { kind: SessionTriggerKind::Manual, source_session_id: None }
    }
}

impl Default for SessionUsage {
    fn default() -> (r: Self)
        ensures
            r == (SessionUsage {
                agents_created: 0,
                actions_started: 0,
                actions_completed: 0,
                action_steps: 0,
                hosted_search_calls: 0,
                tokens: no_usage(),
                wall_time_seconds: 0,
                estimated_cost_usd: None,
            }),
    {
        SessionUsage {
            agents_created: 0,
            actions_started: 0,
            actions_completed: 0,
            action_steps: 0,
            hosted_search_calls: 0,
            tokens: TokenUsage::default(),
            wall_time_seconds: 0,
            estimated_cost_usd: None,
        }
    }
}

} // verus!
