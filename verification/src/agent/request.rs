//! What a Turn is asked to do, what it tells on the way, and what it ends with.

use crate::agent::error::AgentErrorView;
use crate::json::{Json, JsonView};
use crate::protocol::ids::{
    ActionAttemptId, ActionInvocationId, AgentId, ProjectId, SessionId, TurnId, WorkflowId,
};
use crate::protocol::model::{
    item_views, CallView, HostedTool, ItemView, ModelInputItem, ModelResponseFormat, ModelToolCall,
    ReasoningEffort, TokenUsage, WebSearchContextSize, no_usage,
};
use crate::protocol::permissions::TurnEnvironmentSnapshot;
use crate::text::{maybe, texts};
use vstd::prelude::*;

verus! {

/// The context window of a model whose window is not configured.
pub const DEFAULT_MODEL_CONTEXT_WINDOW: usize = 128_000;

/// A Turn to run.
#[derive(Debug, PartialEq)]
pub struct AgentTurnRequest {
    pub project_id: ProjectId,
    pub session_id: SessionId,
    pub agent_id: AgentId,
    pub turn_id: TurnId,
    pub workflow_id: Option<WorkflowId>,
    pub action_invocation_id: Option<ActionInvocationId>,
    pub action_attempt_id: Option<ActionAttemptId>,
    pub sandbox_root: String,
    pub environment: TurnEnvironmentSnapshot,
    pub model: String,
    pub reasoning_effort: Option<ReasoningEffort>,
    pub instructions: String,
    pub objective: String,
    pub initial_history: Vec<ModelInputItem>,
    pub initial_usage: TokenUsage,
    pub completed_model_steps: u32,
    pub hosted_search_calls_used: u32,
    /// Whether the history already holds the objective.
    pub resume_current_turn: bool,
    /// The final message of a Turn that only has to be reported again.
    pub checkpoint_message: Option<String>,
    pub hosted_tools: Vec<HostedTool>,
    /// Whether the model's route offers hosted web search.
    pub hosted_web_search_supported: bool,
    pub web_search_context_size: Option<WebSearchContextSize>,
    pub tools_enabled: bool,
    pub response_format: Option<ModelResponseFormat>,
    pub model_context_window: usize,
}

impl AgentTurnRequest {
    /// A Turn that starts with nothing but its objective.
    pub fn new(
        project_id: ProjectId,
        session_id: SessionId,
        agent_id: AgentId,
        turn_id: TurnId,
        environment: TurnEnvironmentSnapshot,
        sandbox_root: String,
        model: String,
        instructions: String,
        objective: String,
    ) -> (r: Self)
        ensures
            r.project_id == project_id,
            r.session_id == session_id,
            r.agent_id == agent_id,
            r.turn_id == turn_id,
            r.workflow_id is None,
            r.action_invocation_id is None,
            r.action_attempt_id is None,
            r.sandbox_root == sandbox_root,
            r.environment == environment,
            r.model == model,
            r.reasoning_effort is None,
            r.instructions == instructions,
            r.objective == objective,
            r.initial_history@ == Seq::<ModelInputItem>::empty(),
            r.initial_usage == no_usage(),
            r.completed_model_steps == 0,
            r.hosted_search_calls_used == 0,
            !r.resume_current_turn,
            r.checkpoint_message is None,
            r.hosted_tools@ == seq![HostedTool::WebSearch],
            !r.hosted_web_search_supported,
            r.web_search_context_size is None,
            r.tools_enabled,
            r.response_format is None,
            r.model_context_window == DEFAULT_MODEL_CONTEXT_WINDOW,
    {
        let mut hosted_tools: Vec<HostedTool> = Vec::new();
        hosted_tools.push(HostedTool::WebSearch);
        assert(hosted_tools@ =~= seq![HostedTool::WebSearch]);
        AgentTurnRequest {
            project_id,
            session_id,
            agent_id,
            turn_id,
            workflow_id: None,
            action_invocation_id: None,
            action_attempt_id: None,
            sandbox_root,
            environment,
            model,
            reasoning_effort: None,
            instructions,
            objective,
            initial_history: Vec::new(),
            initial_usage: TokenUsage::default(),
            completed_model_steps: 0,
            hosted_search_calls_used: 0,
            resume_current_turn: false,
            checkpoint_message: None,
            hosted_tools,
            hosted_web_search_supported: false,
            web_search_context_size: None,
            tools_enabled: true,
            response_format: None,
            model_context_window: DEFAULT_MODEL_CONTEXT_WINDOW,
        }
    }
}

/// What a finished Turn leaves.
#[derive(Debug, PartialEq)]
pub struct AgentTurnResult {
    pub final_message: String,
    pub history: Vec<ModelInputItem>,
    pub steps: u32,
    pub usage: TokenUsage,
}

/// The mathematical value of an [`AgentTurnResult`].
pub ghost struct ResultView {
    pub final_message: Seq<char>,
    pub history: Seq<ItemView>,
    pub steps: u32,
    pub usage: TokenUsage,
}

impl View for AgentTurnResult {
    type V = ResultView;

    open spec fn view(&self) -> ResultView {
        ResultView {
            final_message: self.final_message@,
            history: item_views(self.history@),
            steps: self.steps,
            usage: self.usage,
        }
    }
}

/// What a person asks of a running Turn.
#[derive(Debug, PartialEq, Eq)]
pub struct AgentCheckpoint {
    pub guidance: Vec<String>,
    pub interrupt: Option<String>,
    pub finish: Option<String>,
}

impl Default for AgentCheckpoint {
    fn default() -> (r: Self)
        ensures
            r.guidance@.len() == 0,
            r.interrupt is None,
            r.finish is None,
    {
        AgentCheckpoint { guidance: Vec::new(), interrupt: None, finish: None }
    }
}

/// The mathematical value of an [`AgentCheckpoint`].
pub ghost struct CheckpointView {
    pub guidance: Seq<Seq<char>>,
    pub interrupt: Option<Seq<char>>,
    pub finish: Option<Seq<char>>,
}

impl View for AgentCheckpoint {
    type V = CheckpointView;

    open spec fn view(&self) -> CheckpointView {
        CheckpointView {
            guidance: texts(self.guidance@),
            interrupt: maybe(self.interrupt),
            finish: maybe(self.finish),
        }
    }
}

/// Which Turn a checkpoint is asked for.
#[derive(Clone, Copy, Debug, PartialEq, Eq, Structural)]
pub struct AgentCheckpointContext {
    pub project_id: ProjectId,
    pub session_id: SessionId,
    pub turn_id: TurnId,
    pub workflow_id: Option<WorkflowId>,
    pub action_invocation_id: Option<ActionInvocationId>,
    pub action_attempt_id: Option<ActionAttemptId>,
}

/// What a Turn tells about its progress.
#[allow(inconsistent_fields)]
#[derive(Debug, PartialEq)]
pub enum AgentEvent {
    Started { objective: String, model: String },
    MessageDelta { delta: String },
    MessageReset,
    MessageCompleted { message: String },
    ToolCallStarted { call: ModelToolCall },
    ToolExecutionStarted { call_id: String },
    ToolCallCompleted {
        call_id: String,
        tool_name: String,
        output: Json,
        duration_ms: u64,
        success: bool,
    },
    ModelStepStarted { step: u32, input: Json },
    ModelStepCompleted { step: u32, output: Json, usage: TokenUsage, duration_ms: u64 },
    ModelStepFailed { step: u32, error: String, usage: TokenUsage, duration_ms: u64 },
    ContextTrimmed { removed_items: usize },
    ContextCompactionStarted { before_tokens: usize },
    ContextCompactionCompleted {
        before_tokens: usize,
        after_tokens: usize,
        removed_items: usize,
        summary: String,
        usage: TokenUsage,
        duration_ms: u64,
    },
    HostedToolCompleted { tool_name: String, input: Json, output: Json },
    SamplingRetry { attempt: u32, error: String },
    HistoryCheckpoint {
        history: Vec<ModelInputItem>,
        usage: TokenUsage,
        completed_model_steps: u32,
        hosted_search_calls_used: u32,
        message: Option<String>,
    },
}

/// The mathematical value of an [`AgentEvent`].
#[allow(inconsistent_fields)]
pub ghost enum EventView {
    Started { objective: Seq<char>, model: Seq<char> },
    MessageDelta { delta: Seq<char> },
    MessageReset,
    MessageCompleted { message: Seq<char> },
    ToolCallStarted { call: CallView },
    ToolExecutionStarted { call_id: Seq<char> },
    ToolCallCompleted {
        call_id: Seq<char>,
        tool_name: Seq<char>,
        output: JsonView,
        duration_ms: u64,
        success: bool,
    },
    ModelStepStarted { step: u32, input: JsonView },
    ModelStepCompleted { step: u32, output: JsonView, usage: TokenUsage, duration_ms: u64 },
    ModelStepFailed { step: u32, error: Seq<char>, usage: TokenUsage, duration_ms: u64 },
    ContextTrimmed { removed_items: int },
    ContextCompactionStarted { before_tokens: int },
    ContextCompactionCompleted {
        before_tokens: int,
        after_tokens: int,
        removed_items: int,
        summary: Seq<char>,
        usage: TokenUsage,
        duration_ms: u64,
    },
    HostedToolCompleted { tool_name: Seq<char>, input: JsonView, output: JsonView },
    SamplingRetry { attempt: u32, error: Seq<char> },
    HistoryCheckpoint {
        history: Seq<ItemView>,
        usage: TokenUsage,
        completed_model_steps: u32,
        hosted_search_calls_used: u32,
        message: Option<Seq<char>>,
    },
}

impl View for AgentEvent {
    type V = EventView;

    open spec fn view(&self) -> EventView {
        match *self {
            AgentEvent::Started { objective, model } => EventView::Started {
                objective: objective@,
                model: model@,
            },
            AgentEvent::MessageDelta { delta } => EventView::MessageDelta { delta: delta@ },
            AgentEvent::MessageReset => EventView::MessageReset,
            AgentEvent::MessageCompleted { message } => EventView::MessageCompleted {
                message: message@,
            },
            AgentEvent::ToolCallStarted { call } => EventView::ToolCallStarted { call: call@ },
            AgentEvent::ToolExecutionStarted { call_id } => EventView::ToolExecutionStarted {
                call_id: call_id@,
            },
            AgentEvent::ToolCallCompleted { call_id, tool_name, output, duration_ms, success } => {
                EventView::ToolCallCompleted {
                    call_id: call_id@,
                    tool_name: tool_name@,
                    output: output@,
                    duration_ms,
                    success,
                }
            },
            AgentEvent::ModelStepStarted { step, input } => EventView::ModelStepStarted {
                step,
                input: input@,
            },
            AgentEvent::ModelStepCompleted { step, output, usage, duration_ms } => {
                EventView::ModelStepCompleted { step, output: output@, usage, duration_ms }
            },
            AgentEvent::ModelStepFailed { step, error, usage, duration_ms } => {
                EventView::ModelStepFailed { step, error: error@, usage, duration_ms }
            },
            AgentEvent::ContextTrimmed { removed_items } => EventView::ContextTrimmed {
                removed_items: removed_items as int,
            },
            AgentEvent::ContextCompactionStarted { before_tokens } => {
                EventView::ContextCompactionStarted { before_tokens: before_tokens as int }
            },
            AgentEvent::ContextCompactionCompleted {
                before_tokens,
                after_tokens,
                removed_items,
                summary,
                usage,
                duration_ms,
            } => EventView::ContextCompactionCompleted {
                before_tokens: before_tokens as int,
                after_tokens: after_tokens as int,
                removed_items: removed_items as int,
                summary: summary@,
                usage,
                duration_ms,
            },
            AgentEvent::HostedToolCompleted { tool_name, input, output } => {
                EventView::HostedToolCompleted {
                    tool_name: tool_name@,
                    input: input@,
                    output: output@,
                }
            },
            AgentEvent::SamplingRetry { attempt, error } => EventView::SamplingRetry {
                attempt,
                error: error@,
            },
            AgentEvent::HistoryCheckpoint {
                history,
                usage,
                completed_model_steps,
                hosted_search_calls_used,
                message,
            } => EventView::HistoryCheckpoint {
                history: item_views(history@),
                usage,
                completed_model_steps,
                hosted_search_calls_used,
                message: maybe(message),
            },
        }
    }
}

/// The values of a list of events.
pub open spec fn event_views(events: Seq<AgentEvent>) -> Seq<EventView> {
    events.map_values(|e: AgentEvent| e@)
}

/// Appending an event appends its value.
pub broadcast proof fn lemma_event_views_push(events: Seq<AgentEvent>, event: AgentEvent)
    ensures
        #[trigger] event_views(events.push(event)) == event_views(events).push(event@),
{
    assert(event_views(events.push(event)) =~= event_views(events).push(event@));
}

/// The events of a Turn, kept in the order in which they came.
#[derive(Debug, PartialEq)]
pub struct RecordingAgentEventSink {
    events: Vec<AgentEvent>,
}

impl View for RecordingAgentEventSink {
    type V = Seq<AgentEvent>;

    closed spec fn view(&self) -> Seq<AgentEvent> {
        self.events@
    }
}

impl Default for RecordingAgentEventSink {
    fn default() -> (r: Self)
        ensures
            r@ == Seq::<AgentEvent>::empty(),
    {
        RecordingAgentEventSink { events: Vec::new() }
    }
}

impl RecordingAgentEventSink {
    /// Keeps an event.
    pub fn emit(&mut self, event: AgentEvent) -> (r: Result<(), String>)
        ensures
            r is Ok,
            final(self)@ == old(self)@.push(event),
    {
        self.events.push(event);
        Ok(())
    }

    /// The events so far.
    pub fn events(&self) -> (r: &Vec<AgentEvent>)
        ensures
            r@ == self@,
    {
        &self.events
    }
}

/// How a Turn ends.
pub ghost enum OutcomeView {
    Finished(ResultView),
    Failed(AgentErrorView),
}

} // verus!
