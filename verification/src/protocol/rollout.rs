//! The durable record of an Agent.

use crate::protocol::ids::{AgentId, AgentInputId, Timestamp, TurnId};
use crate::protocol::model::{ModelInputItem, TokenUsage};
use crate::protocol::session::{ActionAttempt, Turn};
use vstd::prelude::*;

verus! {

/// The form of the record.
pub const AGENT_ROLLOUT_VERSION: u32 = 1;

#[derive(Clone, Copy, Debug, PartialEq, Eq, Structural)]
pub struct AgentRolloutStatus {
    pub version: u32,
    pub last_sequence: u64,
    pub projected_sequence: u64,
}

/// One durable, monotonically sequenced fact in an Agent rollout.
#[derive(Debug, PartialEq)]
pub struct AgentRolloutRecord {
    pub version: u32,
    pub agent_id: AgentId,
    pub sequence: u64,
    pub occurred_at: Timestamp,
    pub item: AgentRolloutItem,
}

#[derive(Clone, Copy, Debug, PartialEq, Eq, Structural)]
pub enum ContextReplacementReason {
    Compaction,
    Trim,
}

#[allow(inconsistent_fields)]
#[derive(Debug, PartialEq)]
pub enum ModelContextMutation {
    Unchanged,
    Append {
        items: Vec<ModelInputItem>,
    },
    Replace {
        items: Vec<ModelInputItem>,
        reason: ContextReplacementReason,
    },
}

#[allow(inconsistent_fields)]
#[derive(Debug, PartialEq)]
pub enum AgentRolloutItem {
    TurnCreated {
        turn: Turn,
        action_attempt: ActionAttempt,
    },
    ContextCheckpoint {
        turn_id: TurnId,
        mutation: ModelContextMutation,
        usage: TokenUsage,
        completed_model_steps: u32,
        hosted_search_calls_used: u32,
        checkpoint_message: Option<String>,
        acknowledged_agent_input_ids: Vec<AgentInputId>,
    },
    TurnUpdated {
        turn: Turn,
        acknowledged_agent_input_ids: Vec<AgentInputId>,
    },
}

#[derive(Debug, PartialEq)]
pub struct AgentRolloutState {
    pub committed_context: Vec<ModelInputItem>,
    pub active_turn: Option<ActiveTurnRolloutState>,
}

#[derive(Debug, PartialEq)]
pub struct ActiveTurnRolloutState {
    pub turn_id: TurnId,
    pub context: Vec<ModelInputItem>,
    pub has_checkpoint: bool,
    pub usage: TokenUsage,
    pub completed_model_steps: u32,
    pub hosted_search_calls_used: u32,
    pub checkpoint_message: Option<String>,
}

impl Default for AgentRolloutState {
    fn default() -> (r: Self)
        ensures
            r.committed_context@ == Seq::<ModelInputItem>::empty(),
            r.active_turn is None,
    {
        AgentRolloutState { committed_context: Vec::new(), active_turn: None }
    }
}

} // verus!
