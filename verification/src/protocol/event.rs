//! The events of a Session.

use crate::protocol::ids::{
    ActionAttemptId, ActionInvocationId, AgentId, AgentInputId, EventId, HumanRequestId, ProjectId,
    SessionId, StepId, Timestamp, TurnId,
};
use crate::protocol::session::{ActionStatus, SessionStatus, SessionUsage, TurnStatus};
use vstd::prelude::*;

verus! {

/// The single durable event stream for a Session and all of its Agents.
#[derive(Debug, PartialEq)]
pub struct SessionEvent {
    pub id: EventId,
    pub sequence: u64,
    pub project_id: ProjectId,
    pub session_id: SessionId,
    pub agent_id: Option<AgentId>,
    pub turn_id: Option<TurnId>,
    pub step_id: Option<StepId>,
    pub occurred_at: Timestamp,
    pub payload: SessionEventPayload,
}

#[allow(inconsistent_fields)]
#[derive(Debug, PartialEq)]
pub enum SessionEventPayload {
    SessionCreated {
        request: String,
        program_slug: String,
        source_sha256: String,
    },
    SessionChanged {
        status: SessionStatus,
        reason: Option<String>,
    },
    AgentCreated {
        name: String,
        role: String,
    },
    ActionChanged {
        action_invocation_id: ActionInvocationId,
        action_attempt_id: Option<ActionAttemptId>,
        action_name: String,
        status: ActionStatus,
        error: Option<String>,
    },
    HumanRequestOpened {
        human_request_id: HumanRequestId,
        question: String,
    },
    HumanRequestResolved {
        human_request_id: HumanRequestId,
    },
    AgentInputQueued {
        agent_input_id: AgentInputId,
        kind: String,
    },
    AgentInputApplied {
        agent_input_id: AgentInputId,
        kind: String,
    },
    UsageUpdated {
        usage: SessionUsage,
    },
    TurnCreated,
    TurnStatusChanged {
        status: TurnStatus,
        error: Option<String>,
    },
    AssistantMessageDelta {
        delta: String,
    },
    AssistantMessageReset,
    AssistantMessageCompleted,
    ModelStepStarted,
    ModelStepCompleted,
    ModelStepFailed,
    ToolCallStarted,
    ToolCallCompleted,
    HostedToolCompleted,
    ContextTrimmed {
        removed_items: usize,
    },
    ContextCompacted {
        before_tokens: usize,
        after_tokens: usize,
        removed_items: usize,
    },
    SamplingRetry {
        attempt: u32,
        error: String,
    },
    Warning {
        message: String,
    },
}

} // verus!
