//! What a Turn does, step by step.
//!
//! A Turn samples the model, runs the tools that it asks for, shows it their outputs, and samples
//! again until it answers with a message alone. Here its transitions are stated; [`super::turn`]
//! performs them.

use crate::agent::error::{AgentError, AgentErrorView};
use crate::agent::history::{
    call_ids_fault, cap, compacted_history, history_call_ids, history_tokens, ids_of, less,
    text_tokens, trimmed_history,
};
use crate::agent::request::{
    event_views, AgentCheckpoint, AgentEvent, AgentTurnRequest, AgentTurnResult, CheckpointView,
    EventView, OutcomeView, ResultView,
};
use crate::agent::sample::{SampleView, SampledStep};
use crate::agent::step::{agent_cache_key, cache_key_digits, field_or, reserved_tokens, shown_output};
use crate::json::{text_field, Json, JsonView};
use crate::model::metadata::effort_view;
use crate::protocol::ids::{id_text, lemma_id_text};
use crate::protocol::model::{
    call_views, format_view, item_views, no_usage, usage_sum, user_message, CallView, HostedTool,
    ItemView, MessageRole, ModelRequest, ModelToolCall, ModelToolChoice, PromptCacheStrategy,
    ReasoningEffort, RequestView, TokenUsage, ToolView,
};
use crate::text::{ends_with, trimmed};
use vstd::prelude::*;

verus! {

/// The mathematical value of the attempts at one sample.
pub ghost struct AttemptView {
    pub request: RequestView,
    /// How often the sample was tried again.
    pub retry: u32,
    /// What the failed attempts used.
    pub usage: TokenUsage,
    /// Whether the model was told that its output was cut off.
    pub told_limit: bool,
    /// Whether the model was told that it gave no answer.
    pub told_empty: bool,
}

/// What a Turn waits for.
pub ghost enum PhaseView {
    /// What a person asks of it.
    Control,
    /// The summary that replaces its history.
    Compacting { before_tokens: int, before_items: int },
    /// A sample.
    Sampling(AttemptView),
    /// The time to try a sample again.
    Waiting(AttemptView),
    /// The outputs of the tools that the model called.
    Tools(Seq<CallView>),
    /// Nothing any more.
    Ended,
}

/// The mathematical value of an [`AgentTurn`].
pub ghost struct TurnView {
    pub request: AgentTurnRequest,
    pub tools: Seq<ToolView>,
    pub hosted: Seq<HostedTool>,
    pub history: Seq<ItemView>,
    /// The identifiers of the calls made so far.
    pub used_ids: Seq<Seq<char>>,
    pub usage: TokenUsage,
    /// How many tokens the history may have.
    pub budget: int,
    /// From how many tokens on the history is compacted.
    pub trigger: int,
    /// Whether a person asked the Turn to finish.
    pub forced: bool,
    pub searches: u32,
    pub step: u32,
    pub phase: PhaseView,
}

/// What came of one tool call.
#[derive(Debug, PartialEq)]
pub struct ToolRun {
    pub output: Json,
    pub success: bool,
    pub duration_ms: u64,
}

/// The mathematical value of a [`ToolRun`].
pub ghost struct RunView {
    pub output: JsonView,
    pub success: bool,
    pub duration_ms: u64,
}

impl View for ToolRun {
    type V = RunView;

    open spec fn view(&self) -> RunView {
        RunView { output: self.output@, success: self.success, duration_ms: self.duration_ms }
    }
}

/// The values of a list of tool runs.
pub open spec fn run_views(runs: Seq<ToolRun>) -> Seq<RunView> {
    runs.map_values(|r: ToolRun| r@)
}

/// What happened outside.
#[derive(Debug, PartialEq)]
pub enum TurnInput {
    /// The Turn was cancelled.
    Cancelled,
    /// The sink refused an event.
    SinkFailed(String),
    /// The control plane answered.
    Control(Result<AgentCheckpoint, String>),
    /// A sample was taken.
    Sampled { outcome: Result<SampledStep, AgentError>, duration_ms: u64 },
    /// The time to wait is over.
    Waited,
    /// The tools ran, one run for each call.
    ToolsRan(Vec<ToolRun>),
}

/// What to wait for.
#[derive(Debug, PartialEq)]
pub enum TurnNext {
    /// Ask the control plane.
    Control,
    /// Sample the model, telling the message while it is received or not.
    Sample { request: ModelRequest, tells: bool },
    /// Let time pass.
    Wait { millis: u64 },
    /// Run tools.
    RunTools { calls: Vec<ModelToolCall> },
    /// Nothing: the Turn is over.
    Done(Result<AgentTurnResult, AgentError>),
}

/// The mathematical value of a [`TurnNext`].
pub ghost enum NextView {
    Control,
    Sample { request: RequestView, tells: bool },
    Wait { millis: u64 },
    RunTools { calls: Seq<CallView> },
    Done(OutcomeView),
}

impl View for TurnNext {
    type V = NextView;

    open spec fn view(&self) -> NextView {
        match *self {
            TurnNext::Control => NextView::Control,
            TurnNext::Sample { request, tells } => NextView::Sample { request: request@, tells },
            TurnNext::Wait { millis } => NextView::Wait { millis },
            TurnNext::RunTools { calls } => NextView::RunTools { calls: call_views(calls@) },
            TurnNext::Done(Ok(result)) => NextView::Done(OutcomeView::Finished(result@)),
            TurnNext::Done(Err(e)) => NextView::Done(OutcomeView::Failed(e@)),
        }
    }
}

/// Events to tell in order, and what to do then.
#[derive(Debug, PartialEq)]
pub struct TurnAction {
    pub events: Vec<AgentEvent>,
    pub next: TurnNext,
}

/// What a Turn becomes and what it asks for.
pub ghost struct Transition {
    pub turn: TurnView,
    pub events: Seq<EventView>,
    pub next: NextView,
}

/// The end of a Turn that failed.
pub open spec fn failure(t: TurnView, events: Seq<EventView>, e: AgentErrorView) -> Transition {
    Transition {
        turn: TurnView { phase: PhaseView::Ended, ..t },
        events,
        next: NextView::Done(OutcomeView::Failed(e)),
    }
}

/// What asks a model for a summary of its history.
pub open spec fn compaction_prompt() -> Seq<char> {
    "You are performing a context checkpoint compaction. Create a concise handoff summary for the model that will continue this research session. Include current progress and decisions, important constraints and user guidance, verified evidence with source URLs, unresolved questions, and concrete next steps. Preserve exact identifiers, quantities, and caveats that matter. Do not continue the research or call tools; return only the handoff summary."@
}

/// What asks a model for its last message.
pub open spec fn finish_prompt() -> Seq<char> {
    "Do not call tools. Synthesize the best self-contained answer supported by the evidence already gathered, follow the control-plane instruction above, and state any remaining limitations."@
}

/// What a model is told whose output was cut off.
pub open spec fn output_limit_prompt() -> Seq<char> {
    "The previous provider response exhausted its output budget before completing. Restart from the original request, omit narrated analysis, and return a concise but complete result now."@
}

/// What a model is told that gave no answer.
pub open spec fn empty_response_prompt() -> Seq<char> {
    "The previous provider response completed without emitting an answer. Return the requested final answer now. Be concise, do not narrate hidden reasoning, and satisfy the original output format exactly."@
}

/// A history with what a person asks for.
pub open spec fn guided(history: Seq<ItemView>, checkpoint: CheckpointView) -> Seq<ItemView> {
    (match checkpoint.finish {
        Some(instruction) => history.push(
            user_message(
                "The action control plane requested that this action finish now:\n"@ + instruction,
            ),
        ),
        None => history,
    }) + checkpoint.guidance.map_values(
        |content: Seq<char>|
            user_message("Human guidance for this running action:\n"@ + content),
    )
}

/// The request for a summary of the history.
pub open spec fn compaction_request(t: TurnView) -> RequestView {
    let room = less(t.budget, cap(text_tokens(compaction_prompt()) + 8));
    RequestView {
        model: t.request.model@,
        reasoning_effort: t.request.reasoning_effort,
        instructions: t.request.instructions@,
        input: trimmed_history(
            t.history,
            if room > 1 {
                room
            } else {
                1
            },
        ).push(user_message(compaction_prompt())),
        prompt_cache: Some(
            (agent_cache_key(id_text(t.request.agent_id.0), t.request.model@), PromptCacheStrategy::Auto),
        ),
        transport_session_key: Some(id_text(t.request.agent_id.0)),
        tools: Seq::empty(),
        hosted_tools: Seq::empty(),
        web_search_context_size: None,
        parallel_tool_calls: false,
        tool_choice: ModelToolChoice::Auto,
        response_format: None,
    }
}

/// The request of a model step. One that is to be the last offers no tools.
pub open spec fn step_request(t: TurnView) -> RequestView {
    let tools = if t.forced {
        Seq::empty()
    } else {
        t.tools
    };
    let hosted = if t.forced {
        Seq::empty()
    } else {
        t.hosted
    };
    RequestView {
        model: t.request.model@,
        reasoning_effort: t.request.reasoning_effort,
        instructions: t.request.instructions@,
        input: t.history,
        prompt_cache: Some(
            (agent_cache_key(id_text(t.request.agent_id.0), t.request.model@), PromptCacheStrategy::Auto),
        ),
        transport_session_key: Some(id_text(t.request.agent_id.0)),
        tools,
        hosted_tools: hosted,
        web_search_context_size: t.request.web_search_context_size,
        parallel_tool_calls: tools.len() > 0 || hosted.len() > 0,
        tool_choice: if t.forced {
            ModelToolChoice::Never
        } else {
            ModelToolChoice::Auto
        },
        response_format: format_view(t.request.response_format),
    }
}

/// How a model step is shown before it is sampled.
pub open spec fn step_input(t: TurnView) -> JsonView {
    let request = step_request(t);
    JsonView::Object(
        seq![
            ("access"@, JsonView::Text(t.request.environment.authorization.preset.name())),
            (
                "authorization_sha256"@,
                JsonView::Text(t.request.environment.authorization_sha256@),
            ),
            (
                "available_hosted_tools"@,
                JsonView::Array(
                    request.hosted_tools.map_values(|h: HostedTool| JsonView::Text(h.text())),
                ),
            ),
            (
                "available_tools"@,
                JsonView::Array(request.tools.map_values(|d: ToolView| JsonView::Text(d.name))),
            ),
            ("control_forced_final"@, JsonView::Bool(t.forced)),
            ("estimated_history_tokens"@, JsonView::Integer(history_tokens(t.history))),
            ("final_sample"@, JsonView::Bool(t.forced)),
            ("history_budget_tokens"@, JsonView::Integer(t.budget)),
            ("history_items"@, JsonView::Integer(t.history.len() as int)),
            ("hosted_search_calls_used"@, JsonView::Integer(t.searches as int)),
            ("model"@, JsonView::Text(t.request.model@)),
            ("prompt_cache_key"@, JsonView::Text((request.prompt_cache->0).0)),
            ("prompt_cache_strategy"@, JsonView::Text((request.prompt_cache->0).1.text())),
            ("reasoning_effort"@, effort_view(t.request.reasoning_effort)),
            ("tool_choice"@, JsonView::Text(request.tool_choice.text())),
            ("tools_enabled"@, JsonView::Bool(t.request.tools_enabled)),
            ("transport_preference"@, JsonView::Text("responses_websocket"@)),
            ("transport_session_key"@, JsonView::Text(id_text(t.request.agent_id.0))),
            (
                "web_search_context_size"@,
                match t.request.web_search_context_size {
                    Some(size) => JsonView::Text(size.text()),
                    None => JsonView::Null,
                },
            ),
        ],
    )
}

/// The history with the prompt for a last message, where the step is to be the last.
pub open spec fn asked_history(t: TurnView) -> Seq<ItemView> {
    if t.forced && !(t.history.len() > 0 && t.history.last() == user_message(finish_prompt())) {
        t.history.push(user_message(finish_prompt()))
    } else {
        t.history
    }
}

/// The history that a Turn is about to show the model, within the budget if trimming can bring it
/// there.
pub open spec fn settled_history(t: TurnView) -> Seq<ItemView> {
    trimmed_history(asked_history(t), t.budget)
}

/// How many items were taken out to settle the history.
pub open spec fn settled_removal(t: TurnView) -> int {
    asked_history(t).len() - settled_history(t).len()
}

/// A snapshot of the Turn for recovery.
pub open spec fn checkpoint_event(
    history: Seq<ItemView>,
    usage: TokenUsage,
    searches: u32,
    completed: u32,
    message: Option<Seq<char>>,
) -> EventView {
    EventView::HistoryCheckpoint {
        history,
        usage,
        completed_model_steps: completed,
        hosted_search_calls_used: searches,
        message,
    }
}

/// Sampling the model's next step, behind some events.
pub open spec fn sampling(t: TurnView, events: Seq<EventView>) -> Transition {
    let settled = TurnView { history: settled_history(t), ..t };
    let told = if settled_removal(t) > 0 {
        events.push(EventView::ContextTrimmed { removed_items: settled_removal(t) })
    } else {
        events
    };
    if history_tokens(settled.history) > t.budget {
        failure(
            settled,
            told,
            AgentErrorView::ContextWindowExceeded {
                estimated: history_tokens(settled.history) as usize,
                budget: t.budget as usize,
            },
        )
    } else {
        let request = step_request(settled);
        let completed = if t.step == 0 {
            0
        } else {
            (t.step - 1) as u32
        };
        Transition {
            turn: TurnView {
                phase: PhaseView::Sampling(
                    AttemptView {
                        request,
                        retry: 0,
                        usage: no_usage(),
                        told_limit: false,
                        told_empty: false,
                    },
                ),
                ..settled
            },
            events: told.push(
                checkpoint_event(settled.history, t.usage, t.searches, completed, None),
            ).push(
                EventView::ModelStepStarted { step: t.step, input: step_input(settled) },
            ),
            next: NextView::Sample { request, tells: true },
        }
    }
}

/// What a Turn does once the control plane answered.
pub open spec fn controlled(t: TurnView, checkpoint: CheckpointView) -> Transition {
    match checkpoint.interrupt {
        Some(reason) => failure(t, Seq::empty(), AgentErrorView::Interrupted(reason)),
        None => {
            let guided = TurnView {
                history: guided(t.history, checkpoint),
                forced: t.forced || checkpoint.finish is Some,
                ..t
            };
            let estimated = history_tokens(guided.history);
            if estimated >= t.trigger && guided.history.len() > 2 {
                Transition {
                    turn: TurnView {
                        phase: PhaseView::Compacting {
                            before_tokens: estimated,
                            before_items: guided.history.len() as int,
                        },
                        ..guided
                    },
                    events: seq![EventView::ContextCompactionStarted { before_tokens: estimated }],
                    next: NextView::Sample { request: compaction_request(guided), tells: false },
                }
            } else {
                sampling(guided, Seq::empty())
            }
        },
    }
}

/// What a Turn does with a summary.
pub open spec fn summarized(
    t: TurnView,
    before_tokens: int,
    before_items: int,
    outcome: Result<SampleView, AgentErrorView>,
    duration_ms: u64,
) -> Transition {
    match outcome {
        Err(e) => failure(t, Seq::empty(), e),
        Ok(sample) => {
            let summary = trimmed(sample.message);
            if summary.len() == 0 {
                failure(t, Seq::empty(), AgentErrorView::EmptyModelResponse)
            } else {
                let room = if t.budget / 3 < 20_000 {
                    t.budget / 3
                } else {
                    20_000
                };
                let compacted = TurnView {
                    history: compacted_history(t.history, summary, room),
                    usage: usage_sum(t.usage, sample.usage),
                    ..t
                };
                sampling(
                    compacted,
                    seq![
                        EventView::ContextCompactionCompleted {
                            before_tokens,
                            after_tokens: history_tokens(compacted.history),
                            removed_items: less(before_items, compacted.history.len() as int),
                            summary,
                            usage: sample.usage,
                            duration_ms,
                        },
                    ],
                )
            }
        },
    }
}

/// Why a sample cannot be used, and what it used all the same; nothing where it can be.
pub open spec fn sample_fault(outcome: Result<SampleView, AgentErrorView>) -> Option<
    (AgentErrorView, TokenUsage),
> {
    match outcome {
        Ok(sample) => if sample.message.len() == 0 && sample.calls.len() == 0 {
            Some((AgentErrorView::EmptyModelResponse, sample.usage))
        } else {
            None
        },
        Err(e) => Some(
            (
                e,
                match e {
                    AgentErrorView::Model(m) => match m.usage() {
                        Some(usage) => usage,
                        None => no_usage(),
                    },
                    _ => no_usage(),
                },
            ),
        ),
    }
}

/// The attempt that follows a failed one: a model that ran out of output or gave none is told so
/// once and thinks less.
pub open spec fn next_attempt(a: AttemptView, e: AgentErrorView, used: TokenUsage) -> AttemptView {
    let limit = e.output_limit();
    let empty = e is EmptyModelResponse;
    let limited = if limit && !a.told_limit {
        a.request.input.push(user_message(output_limit_prompt()))
    } else {
        a.request.input
    };
    let input = if empty && !a.told_empty {
        limited.push(user_message(empty_response_prompt()))
    } else {
        limited
    };
    AttemptView {
        request: RequestView {
            reasoning_effort: if limit || empty {
                Some(ReasoningEffort::Low)
            } else {
                a.request.reasoning_effort
            },
            input,
            ..a.request
        },
        retry: (a.retry + 1) as u32,
        usage: usage_sum(a.usage, used),
        told_limit: a.told_limit || limit,
        told_empty: a.told_empty || empty,
    }
}

/// How long to wait before a sample is tried again, the longer the later.
pub open spec fn retry_wait(retry: u32) -> u64 {
    if retry <= 1 {
        500
    } else {
        1000
    }
}

/// Whether an item is a hosted web search.
pub open spec fn is_search(item: JsonView) -> bool {
    text_field(item, "type"@) == Some("web_search_call"@)
}

/// How many items are hosted web searches.
pub open spec fn search_count(items: Seq<JsonView>) -> int
    decreases items.len(),
{
    if items.len() == 0 {
        0
    } else {
        search_count(items.drop_last()) + (if is_search(items.last()) {
            1int
        } else {
            0
        })
    }
}

/// What is told of the hosted web searches among some items.
pub open spec fn search_events(items: Seq<JsonView>) -> Seq<EventView>
    decreases items.len(),
{
    if items.len() == 0 {
        Seq::empty()
    } else if is_search(items.last()) {
        search_events(items.drop_last()).push(
            EventView::HostedToolCompleted {
                tool_name: "web_search"@,
                input: field_or(items.last(), "action"@, JsonView::Null),
                output: items.last(),
            },
        )
    } else {
        search_events(items.drop_last())
    }
}

/// Whether the items hold a message.
pub open spec fn has_message(items: Seq<JsonView>) -> bool {
    exists|i: int| 0 <= i < items.len() && text_field(#[trigger] items[i], "type"@) == Some("message"@)
}

/// Whether the items hold the call of an identifier.
pub open spec fn replays(items: Seq<JsonView>, id: Seq<char>) -> bool {
    exists|i: int|
        0 <= i < items.len() && text_field(#[trigger] items[i], "type"@) == Some("function_call"@)
            && text_field(items[i], "call_id"@) == Some(id)
}

/// The calls that no item holds, as items.
pub open spec fn unreplayed(calls: Seq<CallView>, items: Seq<JsonView>) -> Seq<ItemView>
    decreases calls.len(),
{
    if calls.len() == 0 {
        Seq::empty()
    } else {
        let before = unreplayed(calls.drop_last(), items);
        let call = calls.last();
        if replays(items, call.call_id) {
            before
        } else {
            before.push(
                ItemView::FunctionCall {
                    call_id: call.call_id,
                    name: call.name,
                    arguments: call.arguments,
                },
            )
        }
    }
}

/// A history with a model's answer.
pub open spec fn answered_history(history: Seq<ItemView>, sample: SampleView) -> Seq<ItemView> {
    let items = history + sample.response_items.map_values(
        |item: JsonView| ItemView::ResponseItem { item },
    );
    let spoken = if sample.message.len() > 0 && !has_message(sample.response_items) {
        items.push(ItemView::Message { role: MessageRole::Assistant, content: sample.message })
    } else {
        items
    };
    spoken + unreplayed(sample.calls, sample.response_items)
}

/// What a Turn does with a sample that can be used: it reserves the identifiers of the calls,
/// records the answer, and runs the tools or ends.
pub open spec fn accepted(
    t: TurnView,
    sample: SampleView,
    retry_usage: TokenUsage,
    duration_ms: u64,
) -> Transition {
    let step_usage = usage_sum(sample.usage, retry_usage);
    let paid = TurnView { usage: usage_sum(t.usage, step_usage), ..t };
    match call_ids_fault(sample.calls, t.used_ids, 0) {
        Some(fault) => {
            let e = AgentErrorView::InvalidToolCallIdentity(fault);
            failure(
                paid,
                seq![
                    EventView::ModelStepFailed {
                        step: t.step,
                        error: e.message(),
                        usage: step_usage,
                        duration_ms,
                    },
                ],
                e,
            )
        },
        None => {
            let count = search_count(sample.response_items);
            let answered = TurnView {
                history: answered_history(t.history, sample),
                used_ids: t.used_ids + ids_of(sample.calls),
                searches: if t.searches + count > u32::MAX {
                    u32::MAX
                } else {
                    (t.searches + count) as u32
                },
                ..paid
            };
            let stepped = search_events(sample.response_items).push(
                EventView::ModelStepCompleted {
                    step: t.step,
                    output: shown_output(
                        sample.message,
                        sample.response_items,
                        sample.request_metadata,
                    ),
                    usage: step_usage,
                    duration_ms,
                },
            );
            let spoken = if sample.message.len() > 0 {
                stepped.push(EventView::MessageCompleted { message: sample.message })
            } else {
                stepped
            };
            let recorded = spoken.push(
                checkpoint_event(
                    answered.history,
                    answered.usage,
                    answered.searches,
                    t.step,
                    if sample.calls.len() == 0 {
                        Some(sample.message)
                    } else {
                        None
                    },
                ),
            );
            if sample.calls.len() == 0 {
                Transition {
                    turn: TurnView { phase: PhaseView::Ended, ..answered },
                    events: recorded,
                    next: NextView::Done(
                        OutcomeView::Finished(
                            ResultView {
                                final_message: sample.message,
                                history: answered.history,
                                steps: t.step,
                                usage: answered.usage,
                            },
                        ),
                    ),
                }
            } else {
                Transition {
                    turn: TurnView { phase: PhaseView::Tools(sample.calls), ..answered },
                    events: recorded + sample.calls.map_values(
                        |call: CallView| EventView::ToolCallStarted { call },
                    ) + sample.calls.map_values(
                        |call: CallView|
                            EventView::ToolExecutionStarted { call_id: call.call_id },
                    ),
                    next: NextView::RunTools { calls: sample.calls },
                }
            }
        },
    }
}

/// What a Turn does with what came of a sample.
pub open spec fn sampled(
    t: TurnView,
    a: AttemptView,
    outcome: Result<SampleView, AgentErrorView>,
    duration_ms: u64,
) -> Transition {
    match sample_fault(outcome) {
        None => accepted(t, outcome->Ok_0, a.usage, duration_ms),
        Some((e, used)) => {
            let usage = usage_sum(a.usage, used);
            if !e.retryable() || a.retry >= 2 {
                failure(
                    t,
                    if usage != no_usage() {
                        seq![
                            EventView::ModelStepFailed {
                                step: t.step,
                                error: e.message(),
                                usage,
                                duration_ms,
                            },
                        ]
                    } else {
                        Seq::empty()
                    },
                    e,
                )
            } else {
                let next = next_attempt(a, e, used);
                Transition {
                    turn: TurnView { phase: PhaseView::Waiting(next), ..t },
                    events: seq![
                        EventView::MessageReset,
                        EventView::SamplingRetry { attempt: next.retry, error: e.message() },
                    ],
                    next: NextView::Wait { millis: retry_wait(next.retry) },
                }
            }
        },
    }
}

/// A history with the outputs of the first `n` calls.
pub open spec fn with_outputs(
    history: Seq<ItemView>,
    calls: Seq<CallView>,
    runs: Seq<RunView>,
    n: nat,
) -> Seq<ItemView> {
    history + Seq::new(
        n,
        |i: int|
            ItemView::FunctionCallOutput { call_id: calls[i].call_id, output: runs[i].output },
    )
}

/// What is told of the outputs of the first `n` calls: each is recorded before it is told.
pub open spec fn output_events(
    history: Seq<ItemView>,
    usage: TokenUsage,
    searches: u32,
    step: u32,
    calls: Seq<CallView>,
    runs: Seq<RunView>,
    n: nat,
) -> Seq<EventView>
    decreases n,
{
    if n == 0 {
        Seq::empty()
    } else {
        output_events(history, usage, searches, step, calls, runs, (n - 1) as nat).push(
            checkpoint_event(
                with_outputs(history, calls, runs, n),
                usage,
                searches,
                step,
                None,
            ),
        ).push(
            EventView::ToolCallCompleted {
                call_id: calls[n - 1].call_id,
                tool_name: calls[n - 1].name,
                output: runs[n - 1].output,
                duration_ms: runs[n - 1].duration_ms,
                success: runs[n - 1].success,
            },
        )
    }
}

/// What a Turn does with the outputs of its tools.
pub open spec fn ran(t: TurnView, calls: Seq<CallView>, runs: Seq<RunView>) -> Transition {
    let shown = TurnView { history: with_outputs(t.history, calls, runs, calls.len()), ..t };
    let events = output_events(t.history, t.usage, t.searches, t.step, calls, runs, calls.len());
    if t.step == u32::MAX {
        failure(shown, events, AgentErrorView::StepCounterOverflow)
    } else {
        Transition {
            turn: TurnView { step: (t.step + 1) as u32, phase: PhaseView::Control, ..shown },
            events,
            next: NextView::Control,
        }
    }
}

/// The value of what came of a sample.
pub open spec fn outcome_view(outcome: Result<SampledStep, AgentError>) -> Result<
    SampleView,
    AgentErrorView,
> {
    match outcome {
        Ok(sample) => Ok(sample@),
        Err(e) => Err(e@),
    }
}

/// Whether a Turn in a phase waits for what happened.
pub open spec fn expects(phase: PhaseView, input: TurnInput) -> bool {
    match input {
        TurnInput::Cancelled | TurnInput::SinkFailed(_) => true,
        TurnInput::Control(_) => phase is Control,
        TurnInput::Sampled { .. } => phase is Compacting || phase is Sampling,
        TurnInput::Waited => phase is Waiting,
        TurnInput::ToolsRan(runs) => phase matches PhaseView::Tools(calls) && calls.len()
            == runs@.len(),
    }
}

/// What a Turn does with what happened.
pub open spec fn advanced(t: TurnView, input: TurnInput) -> Transition {
    match input {
        TurnInput::Cancelled => failure(t, Seq::empty(), AgentErrorView::Cancelled),
        TurnInput::SinkFailed(message) => failure(
            t,
            Seq::empty(),
            AgentErrorView::EventSink(message@),
        ),
        TurnInput::Control(Err(message)) => failure(
            t,
            Seq::empty(),
            AgentErrorView::Control(message@),
        ),
        TurnInput::Control(Ok(checkpoint)) => controlled(t, checkpoint@),
        TurnInput::Sampled { outcome, duration_ms } => match t.phase {
            PhaseView::Compacting { before_tokens, before_items } => summarized(
                t,
                before_tokens,
                before_items,
                outcome_view(outcome),
                duration_ms,
            ),
            PhaseView::Sampling(a) => sampled(t, a, outcome_view(outcome), duration_ms),
            _ => failure(t, Seq::empty(), AgentErrorView::Cancelled),
        },
        TurnInput::Waited => match t.phase {
            PhaseView::Waiting(a) => Transition {
                turn: TurnView { phase: PhaseView::Sampling(a), ..t },
                events: Seq::empty(),
                next: NextView::Sample { request: a.request, tells: true },
            },
            _ => failure(t, Seq::empty(), AgentErrorView::Cancelled),
        },
        TurnInput::ToolsRan(runs) => match t.phase {
            PhaseView::Tools(calls) => ran(t, calls, run_views(runs@)),
            _ => failure(t, Seq::empty(), AgentErrorView::Cancelled),
        },
    }
}

/// The first transition of a Turn.
pub open spec fn started(request: AgentTurnRequest, tools: Seq<ToolView>) -> Transition {
    let offered = if request.tools_enabled {
        tools
    } else {
        Seq::empty()
    };
    let reserved = reserved_tokens(
        request.model_context_window as int,
        request.instructions@,
        offered,
    );
    let budget = less(request.model_context_window as int, reserved);
    let history = if request.resume_current_turn {
        item_views(request.initial_history@)
    } else {
        item_views(request.initial_history@).push(user_message(request.objective@))
    };
    let t = TurnView {
        request,
        tools: offered,
        hosted: if request.tools_enabled && request.hosted_web_search_supported
            && request.web_search_context_size is Some {
            request.hosted_tools@
        } else {
            Seq::empty()
        },
        history,
        used_ids: history_call_ids(history),
        usage: request.initial_usage,
        budget,
        trigger: cap(budget * 90) / 100,
        forced: false,
        searches: request.hosted_search_calls_used,
        step: request.completed_model_steps,
        phase: PhaseView::Control,
    };
    let events = seq![
        EventView::Started { objective: request.objective@, model: request.model@ },
    ];
    if reserved > request.model_context_window {
        failure(
            t,
            events,
            AgentErrorView::ContextWindowTooSmall {
                window: request.model_context_window,
                reserved: reserved as usize,
            },
        )
    } else {
        match request.checkpoint_message {
            Some(message) => Transition {
                turn: TurnView { phase: PhaseView::Ended, ..t },
                events,
                next: NextView::Done(
                    OutcomeView::Finished(
                        ResultView {
                            final_message: message@,
                            history,
                            steps: request.completed_model_steps,
                            usage: request.initial_usage,
                        },
                    ),
                ),
            },
            None => if request.completed_model_steps == u32::MAX {
                failure(t, events, AgentErrorView::StepCounterOverflow)
            } else {
                Transition {
                    turn: TurnView { step: (request.completed_model_steps + 1) as u32, ..t },
                    events,
                    next: NextView::Control,
                }
            },
        }
    }
}

/// Whether a Turn and what it asks for are those of a transition.
pub open spec fn follows(turn: TurnView, action: TurnAction, transition: Transition) -> bool {
    &&& turn == transition.turn
    &&& event_views(action.events@) == transition.events
    &&& action.next@ == transition.next
}

/// A step that is to be the last offers the model no tool.
pub proof fn law_last_step_offers_no_tools(t: TurnView)
    requires
        t.forced,
    ensures
        step_request(t).tools.len() == 0,
        step_request(t).hosted_tools.len() == 0,
        step_request(t).tool_choice == ModelToolChoice::Never,
        !step_request(t).parallel_tool_calls,
{
}

/// Once a person asked a Turn to finish, it stays asked.
pub proof fn law_finishing_is_final(t: TurnView, input: TurnInput)
    requires
        expects(t.phase, input),
        t.forced,
    ensures
        advanced(t, input).turn.forced,
{
}

/// A step is sampled with the whole history of the Turn, and only if that fits in the budget.
pub proof fn law_samples_fit_the_budget(t: TurnView, events: Seq<EventView>)
    ensures
        sampling(t, events).next matches NextView::Sample { request, tells } ==> tells
            && request.input == sampling(t, events).turn.history && history_tokens(request.input)
            <= t.budget,
        !(sampling(t, events).next is Sample) ==> sampling(t, events).next matches NextView::Done(
            OutcomeView::Failed(AgentErrorView::ContextWindowExceeded { .. }),
        ),
{
}

/// A Turn is over exactly when it has nothing more to wait for.
pub proof fn law_done_is_the_end(t: TurnView, input: TurnInput)
    requires
        expects(t.phase, input),
    ensures
        advanced(t, input).next is Done <==> advanced(t, input).turn.phase is Ended,
{
}

/// Tools run only for calls whose identifiers are fit and new, and those are used from then on.
pub proof fn law_tools_run_for_new_calls(t: TurnView, input: TurnInput)
    requires
        expects(t.phase, input),
    ensures
        advanced(t, input).next matches NextView::RunTools { calls } ==> calls.len() > 0
            && call_ids_fault(calls, t.used_ids, 0) is None && advanced(t, input).turn.used_ids
            == t.used_ids + ids_of(calls),
{
}

/// Whether the attempts at a sample are within their bound.
pub open spec fn attempts_bounded(t: TurnView) -> bool {
    match t.phase {
        PhaseView::Sampling(a) => a.retry <= 2,
        PhaseView::Waiting(a) => 1 <= a.retry <= 2,
        _ => true,
    }
}

/// A sample is tried three times at most.
pub proof fn law_attempts_are_bounded(t: TurnView, input: TurnInput)
    requires
        expects(t.phase, input),
        attempts_bounded(t),
    ensures
        attempts_bounded(advanced(t, input).turn),
{
}

/// A Turn starts with no attempt made.
pub proof fn law_turns_start_bounded(request: AgentTurnRequest, tools: Seq<ToolView>)
    ensures
        attempts_bounded(started(request, tools).turn),
{
}

/// Steps are counted one by one: only running tools leads to the next step.
pub proof fn law_steps_are_counted(t: TurnView, input: TurnInput)
    requires
        expects(t.phase, input),
    ensures
        advanced(t, input).turn.step == t.step || (input is ToolsRan && advanced(t, input).turn.step
            == t.step + 1),
{
}

/// A sample that failed for good tells all that its attempts used.
pub proof fn law_failed_attempts_are_paid(
    t: TurnView,
    a: AttemptView,
    outcome: Result<SampleView, AgentErrorView>,
    duration_ms: u64,
)
    requires
        sample_fault(outcome) is Some,
        !(sample_fault(outcome)->0).0.retryable() || a.retry >= 2,
        usage_sum(a.usage, (sample_fault(outcome)->0).1) != no_usage(),
    ensures
        sampled(t, a, outcome, duration_ms).events == seq![
            EventView::ModelStepFailed {
                step: t.step,
                error: (sample_fault(outcome)->0).0.message(),
                usage: usage_sum(a.usage, (sample_fault(outcome)->0).1),
                duration_ms,
            },
        ],
        sampled(t, a, outcome, duration_ms).next == NextView::Done(
            OutcomeView::Failed((sample_fault(outcome)->0).0),
        ),
{
}

proof fn lemma_search_events_are_hosted(items: Seq<JsonView>)
    ensures
        forall|i: int|
            0 <= i < search_events(items).len() ==> (#[trigger] search_events(items)[i]) is HostedToolCompleted,
    decreases items.len(),
{
    if items.len() > 0 {
        lemma_search_events_are_hosted(items.drop_last());
    }
}

/// A call is on record before it is told of: the history that holds the answer is saved before
/// any of its tools is said to start.
pub proof fn law_calls_are_recorded_first(
    t: TurnView,
    sample: SampleView,
    retry_usage: TokenUsage,
    duration_ms: u64,
    i: int,
)
    requires
        0 <= i < accepted(t, sample, retry_usage, duration_ms).events.len(),
        accepted(t, sample, retry_usage, duration_ms).events[i] is ToolCallStarted
            || accepted(t, sample, retry_usage, duration_ms).events[i] is ToolExecutionStarted,
    ensures
        exists|j: int|
            0 <= j < i && (#[trigger] accepted(t, sample, retry_usage, duration_ms).events[j] matches
                EventView::HistoryCheckpoint { history, .. } && history == answered_history(
                t.history,
                sample,
            )),
{
    let made = accepted(t, sample, retry_usage, duration_ms);
    lemma_search_events_are_hosted(sample.response_items);
    let searches = search_events(sample.response_items).len() as int;
    let at = if sample.message.len() > 0 {
        searches + 2
    } else {
        searches + 1
    };
    if call_ids_fault(sample.calls, t.used_ids, 0) is None {
        assert(made.events[at] matches EventView::HistoryCheckpoint { history, .. } && history
            == answered_history(t.history, sample));
        if i <= at {
            if i < searches {
                assert(made.events[i] == search_events(sample.response_items)[i]);
            }
            assert(false);
        }
        assert(0 <= at < i);
    }
}

proof fn lemma_output_events(
    history: Seq<ItemView>,
    usage: TokenUsage,
    searches: u32,
    step: u32,
    calls: Seq<CallView>,
    runs: Seq<RunView>,
    n: nat,
    i: int,
)
    requires
        0 <= i < n,
    ensures
        output_events(history, usage, searches, step, calls, runs, n).len() == 2 * n,
        output_events(history, usage, searches, step, calls, runs, n)[2 * i] == checkpoint_event(
            with_outputs(history, calls, runs, (i + 1) as nat),
            usage,
            searches,
            step,
            None,
        ),
        output_events(history, usage, searches, step, calls, runs, n)[2 * i + 1] == (
        EventView::ToolCallCompleted {
            call_id: calls[i].call_id,
            tool_name: calls[i].name,
            output: runs[i].output,
            duration_ms: runs[i].duration_ms,
            success: runs[i].success,
        }),
    decreases n,
{
    let before = output_events(history, usage, searches, step, calls, runs, (n - 1) as nat);
    if n == 1 {
        assert(before.len() == 0);
    } else {
        lemma_output_events(
            history,
            usage,
            searches,
            step,
            calls,
            runs,
            (n - 1) as nat,
            if i < n - 1 {
                i
            } else {
                0
            },
        );
    }
}

/// An output is on record before it is told of: each event that a tool completed stands right
/// behind a record of the history that ends with its output.
pub proof fn law_outputs_are_recorded_first(
    t: TurnView,
    calls: Seq<CallView>,
    runs: Seq<RunView>,
    i: int,
)
    requires
        0 <= i < calls.len(),
    ensures
        ran(t, calls, runs).events.len() == 2 * calls.len(),
        ran(t, calls, runs).events[2 * i] matches EventView::HistoryCheckpoint { history, .. }
            && history.last() == (ItemView::FunctionCallOutput {
            call_id: calls[i].call_id,
            output: runs[i].output,
        }),
        ran(t, calls, runs).events[2 * i + 1] matches EventView::ToolCallCompleted {
            call_id,
            output,
            ..
        } && call_id == calls[i].call_id && output == runs[i].output,
{
    lemma_output_events(t.history, t.usage, t.searches, t.step, calls, runs, calls.len(), i);
}

/// When a model samples again, every call of its last answer has its output in the history, in the
/// order of the calls.
pub proof fn law_every_call_is_answered(
    t: TurnView,
    calls: Seq<CallView>,
    runs: Seq<RunView>,
    i: int,
)
    requires
        0 <= i < calls.len(),
    ensures
        ran(t, calls, runs).turn.history.len() == t.history.len() + calls.len(),
        ran(t, calls, runs).turn.history[t.history.len() + i] == (ItemView::FunctionCallOutput {
            call_id: calls[i].call_id,
            output: runs[i].output,
        }),
        ran(t, calls, runs).turn.history.take(t.history.len() as int) == t.history,
{
    assert(ran(t, calls, runs).turn.history.take(t.history.len() as int) =~= t.history);
}

/// The requests of one Turn share their cache key, which is one of its Agent but not the Agent's
/// identifier, and their connection, which is kept under that identifier, compaction included.
pub proof fn law_one_cache_key_per_turn(t: TurnView, u: TurnView)
    requires
        t.request == u.request,
    ensures
        step_request(t).prompt_cache == step_request(u).prompt_cache,
        compaction_request(t).prompt_cache == step_request(u).prompt_cache,
        step_request(t).prompt_cache matches Some((key, _)) && ends_with(key, "-agent"@)
            && key != id_text(t.request.agent_id.0),
        compaction_request(t).transport_session_key == step_request(u).transport_session_key,
        step_request(t).transport_session_key == Some(id_text(t.request.agent_id.0)),
{
    let digits = cache_key_digits(Some(id_text(t.request.agent_id.0)), t.request.model@);
    let key = digits + "-agent"@;
    assert(key.subrange(digits.len() as int, key.len() as int) =~= "-agent"@);
    lemma_id_text(t.request.agent_id.0);
    reveal_strlit("-agent");
    assert(key.last() == 't');
}

} // verus!
