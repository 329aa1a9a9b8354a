//! Research runs of workflows.

use crate::json::{Decimal, Json};
use crate::protocol::ids::{
    ActionAttemptId, ActionInvocationId, AgentInstanceId, ArtifactId, ChannelId, ControlMessageId,
    HumanRequestId, RelationId, ResearchId, SessionId, SignalId, TaskScopeId, TeamId, TimerId,
    Timestamp, TurnId, WorkflowRunId,
};
use crate::protocol::model::{no_usage, TokenUsage};
use crate::protocol::workflow::WorkflowProgramSnapshot;
use vstd::prelude::*;

verus! {

#[derive(Clone, Copy, Debug, PartialEq, Eq, Structural)]
pub enum WorkflowRunStatus {
    Created,
    Running,
    Paused,
    Completed,
    Failed,
    Cancelled,
}

impl WorkflowRunStatus {
    /// Whether nothing follows.
    pub open spec fn ended(self) -> bool {
        match self {
            WorkflowRunStatus::Completed
            | WorkflowRunStatus::Failed
            | WorkflowRunStatus::Cancelled => true,
            _ => false,
        }
    }

    pub fn is_terminal(self) -> (r: bool)
        ensures
            r == self.ended(),
    {
        match self {
            WorkflowRunStatus::Completed
            | WorkflowRunStatus::Failed
            | WorkflowRunStatus::Cancelled => true,
            _ => false,
        }
    }
}

#[derive(Debug, PartialEq)]
pub struct Research {
    pub id: ResearchId,
    pub name: String,
    pub description: String,
    pub created_at: Timestamp,
    pub updated_at: Timestamp,
}

#[derive(Debug, PartialEq)]
pub struct WorkflowRun {
    pub id: WorkflowRunId,
    pub research_id: ResearchId,
    pub origin_session_id: SessionId,
    pub workflow: WorkflowProgramSnapshot,
    pub objective: String,
    pub status: WorkflowRunStatus,
    pub input: Json,
    pub output: Option<Json>,
    pub error: Option<String>,
    pub attention_required: bool,
    pub budget: Budget,
    pub usage: BudgetUsage,
    pub created_at: Timestamp,
    pub updated_at: Timestamp,
}

#[derive(Debug, PartialEq)]
pub struct Budget {
    pub max_agents: u32,
    pub max_concurrent_actions: u32,
    pub max_action_steps: u32,
    pub max_total_tokens: Option<u64>,
    pub max_uncached_tokens: Option<u64>,
    pub max_hosted_search_calls: Option<u32>,
    pub max_wall_time_seconds: Option<u64>,
    pub max_cost_usd: Option<Decimal>,
}

impl Default for Budget {
    fn default() -> (r: Self)
        ensures
            r == (Budget {
                max_agents: 12,
                max_concurrent_actions: 4,
                max_action_steps: 32,
                max_total_tokens: Some(2_000_000),
                max_uncached_tokens: Some(500_000),
                max_hosted_search_calls: Some(64),
                max_wall_time_seconds: Some(14_400),
                max_cost_usd: None,
            }),
    {
        Budget {
            max_agents: 12,
            max_concurrent_actions: 4,
            max_action_steps: 32,
            max_total_tokens: Some(2_000_000),
            max_uncached_tokens: Some(500_000),
            max_hosted_search_calls: Some(64),
            max_wall_time_seconds: Some(14_400),
            max_cost_usd: None,
        }
    }
}

#[derive(Debug, PartialEq)]
pub struct BudgetUsage {
    pub agents_created: u32,
    pub actions_started: u32,
    pub actions_completed: u32,
    pub action_steps: u32,
    pub timer_fires: u32,
    pub hosted_search_calls: u32,
    pub tokens: TokenUsage,
    pub wall_time_seconds: u64,
    pub estimated_cost_usd: Option<Decimal>,
}

#[derive(Clone, Copy, Debug, PartialEq, Eq, Structural)]
pub enum ParticipantStatus {
    Active,
    WaitingForHuman,
    Retired,
    Failed,
}

#[derive(Debug, PartialEq)]
pub struct WorkflowParticipant {
    pub id: AgentInstanceId,
    pub workflow_run_id: WorkflowRunId,
    pub session_id: SessionId,
    pub class_name: String,
    pub name: String,
    pub role: String,
    pub instructions: String,
    pub model: String,
    pub skills: Vec<String>,
    pub status: ParticipantStatus,
    pub created_at: Timestamp,
    pub updated_at: Timestamp,
}

#[derive(Clone, Copy, Debug, PartialEq, Eq, Structural)]
pub enum TaskScopeStatus {
    Open,
    Completed,
    Cancelled,
}

#[derive(Debug, PartialEq)]
pub struct TaskScope {
    pub id: TaskScopeId,
    pub workflow_run_id: WorkflowRunId,
    pub parent_id: Option<TaskScopeId>,
    pub name: String,
    pub objective: String,
    pub status: TaskScopeStatus,
    pub created_at: Timestamp,
    pub updated_at: Timestamp,
}

#[derive(Clone, Copy, Debug, PartialEq, Eq, Structural)]
pub enum ActionStatus {
    Scheduled,
    Running,
    WaitingForHuman,
    Completed,
    Failed,
    Interrupted,
    Cancelled,
}

impl ActionStatus {
    /// Whether nothing follows.
    pub open spec fn ended(self) -> bool {
        match self {
            ActionStatus::Completed
            | ActionStatus::Failed
            | ActionStatus::Interrupted
            | ActionStatus::Cancelled => true,
            _ => false,
        }
    }

    pub fn is_terminal(self) -> (r: bool)
        ensures
            r == self.ended(),
    {
        match self {
            ActionStatus::Completed
            | ActionStatus::Failed
            | ActionStatus::Interrupted
            | ActionStatus::Cancelled => true,
            _ => false,
        }
    }
}

#[derive(Debug, PartialEq)]
pub struct ActionInvocation {
    pub id: ActionInvocationId,
    pub workflow_run_id: WorkflowRunId,
    pub task_scope_id: Option<TaskScopeId>,
    pub agent_instance_id: AgentInstanceId,
    pub session_id: SessionId,
    pub action_name: String,
    pub objective: String,
    pub arguments: Json,
    pub status: ActionStatus,
    pub output: Option<Json>,
    pub error: Option<String>,
    pub created_at: Timestamp,
    pub updated_at: Timestamp,
}

#[derive(Debug, PartialEq)]
pub struct ActionAttempt {
    pub id: ActionAttemptId,
    pub workflow_run_id: WorkflowRunId,
    pub invocation_id: ActionInvocationId,
    pub number: u32,
    pub turn_id: Option<TurnId>,
    pub status: ActionStatus,
    pub guidance: Option<String>,
    pub error: Option<String>,
    pub created_at: Timestamp,
    pub updated_at: Timestamp,
}

#[derive(Debug, PartialEq)]
pub struct WorkflowTeam {
    pub id: TeamId,
    pub workflow_run_id: WorkflowRunId,
    pub name: String,
    pub member_ids: Vec<AgentInstanceId>,
    pub created_at: Timestamp,
    pub updated_at: Timestamp,
}

#[derive(Debug, PartialEq)]
pub struct AgentRelation {
    pub id: RelationId,
    pub workflow_run_id: WorkflowRunId,
    pub source_agent_id: AgentInstanceId,
    pub target_agent_id: AgentInstanceId,
    pub kind: String,
    pub instructions: String,
    pub created_at: Timestamp,
}

#[derive(Clone, Copy, Debug, PartialEq, Eq, Structural)]
pub enum TimerPolicy {
    Coalesce,
    Skip,
    Queue,
}

#[derive(Clone, Copy, Debug, PartialEq, Eq, Structural)]
pub enum TimerStatus {
    Active,
    Paused,
    Completed,
    Cancelled,
}

#[derive(Debug, PartialEq)]
pub struct WorkflowTimer {
    pub id: TimerId,
    pub workflow_run_id: WorkflowRunId,
    pub name: String,
    pub interval_ms: u64,
    pub policy: TimerPolicy,
    pub status: TimerStatus,
    pub fire_count: u32,
    pub next_fire_at: Timestamp,
    pub last_fired_at: Option<Timestamp>,
    pub created_at: Timestamp,
    pub updated_at: Timestamp,
}

#[derive(Debug, PartialEq)]
pub struct WorkflowChannel {
    pub id: ChannelId,
    pub workflow_run_id: WorkflowRunId,
    pub name: String,
    pub schema: Json,
    pub created_at: Timestamp,
}

#[derive(Debug, PartialEq)]
pub struct WorkflowSignal {
    pub id: SignalId,
    pub workflow_run_id: WorkflowRunId,
    pub channel_id: ChannelId,
    pub sender_agent_id: Option<AgentInstanceId>,
    pub sequence: u64,
    pub value: Json,
    pub created_at: Timestamp,
}

#[derive(Clone, Copy, Debug, PartialEq, Eq, Structural)]
pub enum HumanRequestStatus {
    Open,
    Answered,
    Cancelled,
}

#[derive(Debug, PartialEq)]
pub struct HumanRequest {
    pub id: HumanRequestId,
    pub workflow_run_id: WorkflowRunId,
    pub action_invocation_id: Option<ActionInvocationId>,
    pub action_attempt_id: Option<ActionAttemptId>,
    pub session_id: SessionId,
    pub turn_id: Option<TurnId>,
    pub question: String,
    pub response_schema: Json,
    pub status: HumanRequestStatus,
    pub answer: Option<Json>,
    pub created_at: Timestamp,
    pub resolved_at: Option<Timestamp>,
}

#[derive(Clone, Copy, Debug, PartialEq, Eq, Structural)]
pub enum ControlMessageKind {
    Guide,
    Interrupt,
    Finish,
}

#[derive(Clone, Copy, Debug, PartialEq, Eq, Structural)]
pub enum ControlMessageStatus {
    Pending,
    Applied,
    Cancelled,
}

#[derive(Debug, PartialEq)]
pub struct ControlMessage {
    pub id: ControlMessageId,
    pub workflow_run_id: WorkflowRunId,
    pub session_id: SessionId,
    pub action_invocation_id: Option<ActionInvocationId>,
    pub kind: ControlMessageKind,
    pub content: String,
    pub status: ControlMessageStatus,
    pub created_at: Timestamp,
    pub applied_at: Option<Timestamp>,
}

#[derive(Clone, Copy, Debug, PartialEq, Eq, Structural)]
pub enum ArtifactKind {
    Paper,
    Source,
    Code,
    Dataset,
    Experiment,
    Log,
    Figure,
    Report,
    Metric,
    Other,
}

#[derive(Debug, PartialEq)]
pub struct Artifact {
    pub id: ArtifactId,
    pub research_id: ResearchId,
    pub workflow_run_id: WorkflowRunId,
    pub session_id: Option<SessionId>,
    pub action_invocation_id: Option<ActionInvocationId>,
    pub kind: ArtifactKind,
    pub name: String,
    pub media_type: String,
    pub relative_path: String,
    pub sha256: String,
    pub size_bytes: u64,
    pub metadata: Json,
    pub created_at: Timestamp,
}

impl Default for BudgetUsage {
    fn default() -> (r: Self)
        ensures
            r == (BudgetUsage {
                agents_created: 0,
                actions_started: 0,
                actions_completed: 0,
                action_steps: 0,
                timer_fires: 0,
                hosted_search_calls: 0,
                tokens: no_usage(),
                wall_time_seconds: 0,
                estimated_cost_usd: None,
            }),
    {
        BudgetUsage {
            agents_created: 0,
            actions_started: 0,
            actions_completed: 0,
            action_steps: 0,
            timer_fires: 0,
            hosted_search_calls: 0,
            tokens: TokenUsage::default(),
            wall_time_seconds: 0,
            estimated_cost_usd: None,
        }
    }
}

} // verus!
