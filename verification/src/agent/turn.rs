//! The agent loop as a machine.
//!
//! [`AgentTurn::advance`] takes what happened outside and gives what to do next: some events to
//! hand to the sink in order, and one thing to wait for. A sink that refuses an event, and a
//! cancellation at any point, end the Turn.

use crate::agent::error::AgentError;
use crate::agent::history::{
    build_compacted_history, estimate_history_tokens, estimate_text_tokens, has_type,
    history_tokens, reserve_tool_call_ids, tool_call_ids_from_history, trim_history,
};
use crate::agent::request::{
    event_views, lemma_event_views_push, AgentCheckpoint, AgentCheckpointContext, AgentEvent,
    AgentTurnRequest, AgentTurnResult, EventView,
};
use crate::agent::sample::SampledStep;
use crate::agent::step::{agent_cache_config, history_token_budget, inspectable_model_output};
use crate::agent::transitions::{
    accepted, advanced, answered_history, asked_history, checkpoint_event, compaction_request,
    controlled, expects, failure, follows, guided, has_message, next_attempt, outcome_view,
    output_events, ran, replays, run_views, sampled, sampling, search_count, search_events, started,
    step_input, step_request, summarized, unreplayed, with_outputs, AttemptView, PhaseView, ToolRun,
    TurnAction, TurnInput, TurnNext, TurnView,
};
use crate::json::{group_json, member_views, put, text_field, views, Json, JsonView};
use crate::model::metadata::effort_json;
use crate::protocol::model::{
    call_views, copy_hosted, copy_items, copy_tools, item_views, lemma_item_views_push, tool_views,
    user_message, CallView, HostedTool, ItemView, MessageRole, ModelInputItem, ModelRequest,
    ModelToolCall, ModelToolChoice, ReasoningEffort, TokenUsage, ToolDefinition, ToolView,
};
use crate::text::{lemma_texts_push, maybe, same, texts, trim};
use vstd::prelude::*;

verus! {

broadcast use {group_json, lemma_item_views_push, lemma_event_views_push, lemma_texts_push};

/// The attempts at one sample.
#[derive(Debug, PartialEq)]
struct Attempt {
    request: ModelRequest,
    retry: u32,
    usage: TokenUsage,
    told_limit: bool,
    told_empty: bool,
}

impl View for Attempt {
    type V = AttemptView;

    closed spec fn view(&self) -> AttemptView {
        AttemptView {
            request: self.request@,
            retry: self.retry,
            usage: self.usage,
            told_limit: self.told_limit,
            told_empty: self.told_empty,
        }
    }
}

#[derive(Debug, PartialEq)]
enum Phase {
    Control,
    Compacting { before_tokens: usize, before_items: usize },
    Sampling(Attempt),
    Waiting(Attempt),
    Tools(Vec<ModelToolCall>),
    Ended,
}

impl View for Phase {
    type V = PhaseView;

    closed spec fn view(&self) -> PhaseView {
        match *self {
            Phase::Control => PhaseView::Control,
            Phase::Compacting { before_tokens, before_items } => PhaseView::Compacting {
                before_tokens: before_tokens as int,
                before_items: before_items as int,
            },
            Phase::Sampling(a) => PhaseView::Sampling(a@),
            Phase::Waiting(a) => PhaseView::Waiting(a@),
            Phase::Tools(calls) => PhaseView::Tools(call_views(calls@)),
            Phase::Ended => PhaseView::Ended,
        }
    }
}

/// A running Turn.
#[derive(Debug, PartialEq)]
pub struct AgentTurn {
    request: AgentTurnRequest,
    tools: Vec<ToolDefinition>,
    hosted: Vec<HostedTool>,
    history: Vec<ModelInputItem>,
    used_ids: Vec<String>,
    usage: TokenUsage,
    budget: usize,
    trigger: usize,
    forced: bool,
    searches: u32,
    step: u32,
    phase: Phase,
}

impl View for AgentTurn {
    type V = TurnView;

    closed spec fn view(&self) -> TurnView {
        TurnView {
            request: self.request,
            tools: tool_views(self.tools@),
            hosted: self.hosted@,
            history: item_views(self.history@),
            used_ids: texts(self.used_ids@),
            usage: self.usage,
            budget: self.budget as int,
            trigger: self.trigger as int,
            forced: self.forced,
            searches: self.searches,
            step: self.step,
            phase: self.phase@,
        }
    }
}

fn user(prefix: &str, content: &str) -> (r: ModelInputItem)
    ensures
        r@ == user_message(prefix@ + content@),
{
    let mut text = prefix.to_owned();
    text.append(content);
    ModelInputItem::Message { role: MessageRole::User, content: text }
}

fn user_text(content: &str) -> (r: ModelInputItem)
    ensures
        r@ == user_message(content@),
{
    ModelInputItem::Message { role: MessageRole::User, content: content.to_owned() }
}

fn no_events() -> (r: Vec<AgentEvent>)
    ensures
        event_views(r@) == Seq::<EventView>::empty(),
{
    let r: Vec<AgentEvent> = Vec::new();
    assert(event_views(r@) =~= Seq::<EventView>::empty());
    r
}

fn copy_calls(calls: &Vec<ModelToolCall>) -> (r: Vec<ModelToolCall>)
    ensures
        call_views(r@) == call_views(calls@),
{
    let mut r: Vec<ModelToolCall> = Vec::new();
    let mut i: usize = 0;
    while i < calls.len()
        invariant
            i <= calls.len(),
            call_views(r@) == call_views(calls@).take(i as int),
        decreases calls.len() - i,
    {
        let call = calls[i].clone();
        let ghost before = r@;
        r.push(call);
        assert(call_views(r@) =~= call_views(before).push(call@));
        assert(call_views(r@) =~= call_views(calls@).take(i + 1));
        i = i + 1;
    }
    assert(call_views(r@) =~= call_views(calls@));
    r
}

fn last_item(items: &Vec<ModelInputItem>) -> (r: Option<&ModelInputItem>)
    ensures
        match r {
            Some(item) => item_views(items@).len() > 0 && item@ == item_views(items@).last(),
            None => item_views(items@).len() == 0,
        },
{
    if items.len() == 0 {
        None
    } else {
        Some(&items[items.len() - 1])
    }
}

/// Tells the hosted web searches among some items and counts them.
fn tell_searches(items: &Vec<Json>, events: &mut Vec<AgentEvent>) -> (count: usize)
    ensures
        count == search_count(views(items@)),
        event_views(final(events)@) == event_views(old(events)@) + search_events(views(items@)),
{
    let ghost all = views(items@);
    let ghost before = event_views(events@);
    let mut count: usize = 0;
    let mut i: usize = 0;
    assert(all.take(0) =~= Seq::<JsonView>::empty());
    assert(before + search_events(all.take(0)) =~= before);
    while i < items.len()
        invariant
            i <= items.len(),
            all == views(items@),
            count == search_count(all.take(i as int)),
            count <= i,
            event_views(events@) == before + search_events(all.take(i as int)),
        decreases items.len() - i,
    {
        assert(all.take(i + 1).drop_last() =~= all.take(i as int));
        assert(all.take(i + 1).last() == items@[i as int]@);
        if has_type(&items[i], "web_search_call") {
            let input = match items[i].get("action") {
                Some(action) => action.clone(),
                None => Json::Null,
            };
            let event = AgentEvent::HostedToolCompleted {
                tool_name: HostedTool::WebSearch.name().to_owned(),
                input,
                output: items[i].clone(),
            };
            events.push(event);
            count = count + 1;
            assert(before + search_events(all.take(i + 1)) =~= (before + search_events(
                all.take(i as int),
            )).push(event@));
        }
        i = i + 1;
    }
    assert(all.take(all.len() as int) =~= all);
    count
}

fn find_message(items: &Vec<Json>) -> (r: bool)
    ensures
        r == has_message(views(items@)),
{
    let mut i: usize = 0;
    while i < items.len()
        invariant
            i <= items.len(),
            forall|k: int|
                0 <= k < i ==> text_field(#[trigger] views(items@)[k], "type"@) != Some(
                    "message"@,
                ),
        decreases items.len() - i,
    {
        assert(views(items@)[i as int] == items@[i as int]@);
        if has_type(&items[i], "message") {
            return true;
        }
        i = i + 1;
    }
    false
}

fn is_replayed(items: &Vec<Json>, id: &str) -> (r: bool)
    ensures
        r == replays(views(items@), id@),
{
    let mut i: usize = 0;
    while i < items.len()
        invariant
            i <= items.len(),
            forall|k: int|
                0 <= k < i ==> !(text_field(#[trigger] views(items@)[k], "type"@) == Some(
                    "function_call"@,
                ) && text_field(views(items@)[k], "call_id"@) == Some(id@)),
        decreases items.len() - i,
    {
        assert(views(items@)[i as int] == items@[i as int]@);
        if has_type(&items[i], "function_call") {
            match items[i].text_at("call_id") {
                Some(call_id) => {
                    if same(call_id, id) {
                        return true;
                    }
                },
                None => {},
            }
        }
        i = i + 1;
    }
    false
}

/// The calls that no item holds, as items.
fn missing_calls(calls: &Vec<ModelToolCall>, items: &Vec<Json>) -> (r: Vec<ModelInputItem>)
    ensures
        item_views(r@) == unreplayed(call_views(calls@), views(items@)),
{
    let ghost all = call_views(calls@);
    let mut r: Vec<ModelInputItem> = Vec::new();
    let mut i: usize = 0;
    assert(all.take(0) =~= Seq::<CallView>::empty());
    assert(item_views(r@) =~= Seq::<ItemView>::empty());
    while i < calls.len()
        invariant
            i <= calls.len(),
            all == call_views(calls@),
            item_views(r@) == unreplayed(all.take(i as int), views(items@)),
        decreases calls.len() - i,
    {
        assert(all.take(i + 1).drop_last() =~= all.take(i as int));
        assert(all.take(i + 1).last() == calls@[i as int]@);
        if !is_replayed(items, calls[i].call_id.as_str()) {
            r.push(
                ModelInputItem::FunctionCall {
                    call_id: calls[i].call_id.clone(),
                    name: calls[i].name.clone(),
                    arguments: calls[i].arguments.clone(),
                },
            );
        }
        i = i + 1;
    }
    assert(all.take(all.len() as int) =~= all);
    r
}

/// Appends response items to a history.
fn append_items(history: &mut Vec<ModelInputItem>, items: Vec<Json>)
    ensures
        item_views(final(history)@) == item_views(old(history)@) + views(items@).map_values(
            |item: JsonView| ItemView::ResponseItem { item },
        ),
{
    let ghost before = item_views(history@);
    let ghost added = views(items@).map_values(|item: JsonView| ItemView::ResponseItem { item });
    let mut i: usize = 0;
    assert(before + added.take(0) =~= before);
    while i < items.len()
        invariant
            i <= items.len(),
            added == views(items@).map_values(|item: JsonView| ItemView::ResponseItem { item }),
            item_views(history@) == before + added.take(i as int),
        decreases items.len() - i,
    {
        let item = ModelInputItem::ResponseItem { item: items[i].clone() };
        history.push(item);
        assert(item_views(history@) =~= before + added.take(i + 1));
        i = i + 1;
    }
    assert(added.take(added.len() as int) =~= added);
}

fn copy_size(size: usize) -> (r: Json)
    ensures
        r@ == JsonView::Integer(size as int),
{
    Json::Unsigned(size as u64)
}

impl Attempt {
    fn copy_request(&self) -> (r: ModelRequest)
        ensures
            r@ == self@.request,
    {
        self.request.clone()
    }
}

impl AgentTurn {
    /// Starts a Turn with the tools that its registry defines.
    pub fn start(request: AgentTurnRequest, tools: Vec<ToolDefinition>) -> (r: (
        AgentTurn,
        TurnAction,
    ))
        ensures
            follows(r.0@, r.1, started(request, tool_views(tools@))),
    {
        let mut events = no_events();
        events.push(
            AgentEvent::Started {
                objective: request.objective.clone(),
                model: request.model.clone(),
            },
        );
        assert(event_views(events@) =~= seq![
            EventView::Started { objective: request.objective@, model: request.model@ },
        ]);
        let mut history = copy_items(&request.initial_history);
        if !request.resume_current_turn {
            history.push(user_text(request.objective.as_str()));
        }
        let used_ids = tool_call_ids_from_history(&history);
        let offered: Vec<ToolDefinition> = if request.tools_enabled {
            tools
        } else {
            Vec::new()
        };
        assert(!request.tools_enabled ==> tool_views(offered@) =~= Seq::<ToolView>::empty());
        let hosted: Vec<HostedTool> = if request.tools_enabled
            && request.hosted_web_search_supported && request.web_search_context_size.is_some() {
            copy_hosted(&request.hosted_tools)
        } else {
            Vec::new()
        };
        let budgeted = history_token_budget(
            request.model_context_window,
            request.instructions.as_str(),
            &offered,
        );
        let budget: usize = match &budgeted {
            Ok(b) => *b,
            Err(_) => 0,
        };
        let trigger: usize = if budget > usize::MAX / 90 {
            usize::MAX / 100
        } else {
            budget * 90 / 100
        };
        let mut turn = AgentTurn {
            usage: request.initial_usage,
            searches: request.hosted_search_calls_used,
            step: request.completed_model_steps,
            request,
            tools: offered,
            hosted,
            history,
            used_ids,
            budget,
            trigger,
            forced: false,
            phase: Phase::Control,
        };
        match budgeted {
            Ok(_) => {},
            Err(e) => {
                let action = turn.fail(events, e);
                return (turn, action);
            },
        }
        match &turn.request.checkpoint_message {
            Some(message) => {
                let result = AgentTurnResult {
                    final_message: message.clone(),
                    history: copy_items(&turn.history),
                    steps: turn.request.completed_model_steps,
                    usage: turn.usage,
                };
                turn.phase = Phase::Ended;
                return (turn, TurnAction { events, next: TurnNext::Done(Ok(result)) });
            },
            None => {},
        }
        if turn.step == u32::MAX {
            let action = turn.fail(events, AgentError::StepCounterOverflow);
            return (turn, action);
        }
        turn.step = turn.step + 1;
        (turn, TurnAction { events, next: TurnNext::Control })
    }

    /// The Turn that the control plane is asked about.
    pub fn checkpoint_context(&self) -> (r: AgentCheckpointContext)
        ensures
            r == (AgentCheckpointContext {
                project_id: self@.request.project_id,
                session_id: self@.request.session_id,
                turn_id: self@.request.turn_id,
                workflow_id: self@.request.workflow_id,
                action_invocation_id: self@.request.action_invocation_id,
                action_attempt_id: self@.request.action_attempt_id,
            }),
    {
        AgentCheckpointContext {
            project_id: self.request.project_id,
            session_id: self.request.session_id,
            turn_id: self.request.turn_id,
            workflow_id: self.request.workflow_id,
            action_invocation_id: self.request.action_invocation_id,
            action_attempt_id: self.request.action_attempt_id,
        }
    }

    fn fail(&mut self, events: Vec<AgentEvent>, e: AgentError) -> (r: TurnAction)
        ensures
            follows(final(self)@, r, failure(old(self)@, event_views(events@), e@)),
    {
        self.phase = Phase::Ended;
        TurnAction { events, next: TurnNext::Done(Err(e)) }
    }

    fn record(&self, completed: u32, message: Option<String>) -> (r: AgentEvent)
        ensures
            r@ == checkpoint_event(
                self@.history,
                self@.usage,
                self@.searches,
                completed,
                maybe(message),
            ),
    {
        AgentEvent::HistoryCheckpoint {
            history: copy_items(&self.history),
            usage: self.usage,
            completed_model_steps: completed,
            hosted_search_calls_used: self.searches,
            message,
        }
    }

    fn control(&mut self, checkpoint: AgentCheckpoint) -> (r: TurnAction)
        ensures
            follows(final(self)@, r, controlled(old(self)@, checkpoint@)),
    {
        let ghost before = self@;
        match checkpoint.interrupt {
            Some(reason) => {
                return self.fail(no_events(), AgentError::Interrupted(reason));
            },
            None => {},
        }
        match &checkpoint.finish {
            Some(instruction) => {
                self.forced = true;
                self.history.push(
                    user(
                        "The action control plane requested that this action finish now:\n",
                        instruction.as_str(),
                    ),
                );
            },
            None => {},
        }
        let ghost finished = item_views(self.history@);
        let ghost guidance = texts(checkpoint.guidance@).map_values(
            |content: Seq<char>|
                user_message("Human guidance for this running action:\n"@ + content),
        );
        let mut i: usize = 0;
        assert(finished + guidance.take(0) =~= finished);
        let ghost forced = self.forced;
        while i < checkpoint.guidance.len()
            invariant
                i <= checkpoint.guidance.len(),
                guidance == texts(checkpoint.guidance@).map_values(
                    |content: Seq<char>|
                        user_message("Human guidance for this running action:\n"@ + content),
                ),
                self@ == (TurnView { history: finished + guidance.take(i as int), forced, ..before }),
            decreases checkpoint.guidance.len() - i,
        {
            let item = user(
                "Human guidance for this running action:\n",
                checkpoint.guidance[i].as_str(),
            );
            self.history.push(item);
            assert(finished + guidance.take(i + 1) =~= (finished + guidance.take(i as int)).push(
                item@,
            ));
            i = i + 1;
        }
        assert(guidance.take(guidance.len() as int) =~= guidance);
        assert(self@.history == guided(before.history, checkpoint@));
        let estimated = estimate_history_tokens(&self.history);
        if estimated >= self.trigger && self.history.len() > 2 {
            let request = self.compaction();
            self.phase = Phase::Compacting {
                before_tokens: estimated,
                before_items: self.history.len(),
            };
            let mut events = no_events();
            events.push(AgentEvent::ContextCompactionStarted { before_tokens: estimated });
            assert(event_views(events@) =~= seq![
                EventView::ContextCompactionStarted { before_tokens: estimated as int },
            ]);
            return TurnAction { events, next: TurnNext::Sample { request, tells: false } };
        }
        self.settle(no_events())
    }

    fn compaction(&self) -> (r: ModelRequest)
        ensures
            r@ == compaction_request(self@),
    {
        let prompt =
            "You are performing a context checkpoint compaction. Create a concise handoff summary for the model that will continue this research session. Include current progress and decisions, important constraints and user guidance, verified evidence with source URLs, unresolved questions, and concrete next steps. Preserve exact identifiers, quantities, and caveats that matter. Do not continue the research or call tools; return only the handoff summary.";
        let mut input = copy_items(&self.history);
        let room = self.budget.saturating_sub(estimate_text_tokens(prompt).saturating_add(8));
        let _ = trim_history(
            &mut input,
            if room > 1 {
                room
            } else {
                1
            },
        );
        input.push(user_text(prompt));
        let key = self.request.agent_id.text();
        let request = ModelRequest {
            model: self.request.model.clone(),
            reasoning_effort: self.request.reasoning_effort,
            instructions: self.request.instructions.clone(),
            input,
            prompt_cache: Some(
                agent_cache_config(key.as_str(), self.request.model.as_str()),
            ),
            transport_session_key: Some(key),
            tools: Vec::new(),
            hosted_tools: Vec::new(),
            web_search_context_size: None,
            parallel_tool_calls: false,
            tool_choice: ModelToolChoice::Auto,
            response_format: None,
        };
        assert(request@.tools =~= Seq::<ToolView>::empty());
        assert(request@.hosted_tools =~= Seq::<HostedTool>::empty());
        request
    }

    fn step_request(&self) -> (r: ModelRequest)
        ensures
            r@ == step_request(self@),
            r.prompt_cache is Some,
    {
        let tools: Vec<ToolDefinition> = if self.forced {
            Vec::new()
        } else {
            copy_tools(&self.tools)
        };
        let hosted_tools: Vec<HostedTool> = if self.forced {
            Vec::new()
        } else {
            copy_hosted(&self.hosted)
        };
        let some = tools.len() > 0 || hosted_tools.len() > 0;
        let key = self.request.agent_id.text();
        let request = ModelRequest {
            model: self.request.model.clone(),
            reasoning_effort: self.request.reasoning_effort,
            instructions: self.request.instructions.clone(),
            input: copy_items(&self.history),
            prompt_cache: Some(
                agent_cache_config(key.as_str(), self.request.model.as_str()),
            ),
            transport_session_key: Some(key),
            tools,
            hosted_tools,
            web_search_context_size: self.request.web_search_context_size,
            parallel_tool_calls: some,
            tool_choice: if self.forced {
                ModelToolChoice::Never
            } else {
                ModelToolChoice::Auto
            },
            response_format: match &self.request.response_format {
                Some(f) => Some(f.clone()),
                None => None,
            },
        };
        assert(self@.forced ==> request@.tools =~= Seq::<ToolView>::empty());
        assert(self@.forced ==> request@.hosted_tools =~= Seq::<HostedTool>::empty());
        request
    }

    fn step_input(&self, request: &ModelRequest, estimated: usize) -> (r: Json)
        requires
            request@ == step_request(self@),
            request.prompt_cache is Some,
            estimated == history_tokens(self@.history),
        ensures
            r@ == step_input(self@),
    {
        let mut names: Vec<Json> = Vec::new();
        let ghost tool_names = request@.tools.map_values(|d: ToolView| JsonView::Text(d.name));
        let mut i: usize = 0;
        assert(views(names@) =~= tool_names.take(0));
        while i < request.tools.len()
            invariant
                i <= request.tools.len(),
                tool_names == request@.tools.map_values(|d: ToolView| JsonView::Text(d.name)),
                views(names@) == tool_names.take(i as int),
            decreases request.tools.len() - i,
        {
            let name = Json::text(request.tools[i].name.as_str());
            names.push(name);
            assert(views(names@) =~= tool_names.take(i + 1));
            i = i + 1;
        }
        assert(views(names@) =~= tool_names);
        let mut hosted: Vec<Json> = Vec::new();
        let ghost hosted_names = request@.hosted_tools.map_values(
            |h: HostedTool| JsonView::Text(h.text()),
        );
        let mut k: usize = 0;
        assert(views(hosted@) =~= hosted_names.take(0));
        while k < request.hosted_tools.len()
            invariant
                k <= request.hosted_tools.len(),
                hosted_names == request@.hosted_tools.map_values(
                    |h: HostedTool| JsonView::Text(h.text()),
                ),
                views(hosted@) == hosted_names.take(k as int),
            decreases request.hosted_tools.len() - k,
        {
            let name = Json::text(request.hosted_tools[k].name());
            hosted.push(name);
            assert(views(hosted@) =~= hosted_names.take(k + 1));
            k = k + 1;
        }
        assert(views(hosted@) =~= hosted_names);
        let (key, strategy) = match &request.prompt_cache {
            Some(cache) => (Json::text(cache.key.as_str()), Json::text(cache.strategy.as_str())),
            None => (Json::Null, Json::Null),
        };
        let mut o: Vec<(String, Json)> = Vec::new();
        put(
            &mut o,
            "access",
            Json::text(self.request.environment.authorization.preset.as_str()),
        );
        put(
            &mut o,
            "authorization_sha256",
            Json::text(self.request.environment.authorization_sha256.as_str()),
        );
        put(&mut o, "available_hosted_tools", Json::Array(hosted));
        put(&mut o, "available_tools", Json::Array(names));
        put(&mut o, "control_forced_final", Json::Bool(self.forced));
        put(&mut o, "estimated_history_tokens", copy_size(estimated));
        put(&mut o, "final_sample", Json::Bool(self.forced));
        put(&mut o, "history_budget_tokens", copy_size(self.budget));
        put(&mut o, "history_items", copy_size(self.history.len()));
        put(&mut o, "hosted_search_calls_used", Json::Unsigned(self.searches as u64));
        put(&mut o, "model", Json::text(self.request.model.as_str()));
        put(&mut o, "prompt_cache_key", key);
        put(&mut o, "prompt_cache_strategy", strategy);
        put(&mut o, "reasoning_effort", effort_json(self.request.reasoning_effort));
        put(&mut o, "tool_choice", Json::text(request.tool_choice.as_str()));
        put(&mut o, "tools_enabled", Json::Bool(self.request.tools_enabled));
        put(&mut o, "transport_preference", Json::text("responses_websocket"));
        let connection = self.request.agent_id.text();
        put(&mut o, "transport_session_key", Json::text(connection.as_str()));
        put(
            &mut o,
            "web_search_context_size",
            match self.request.web_search_context_size {
                Some(size) => Json::text(size.as_str()),
                None => Json::Null,
            },
        );
        assert(member_views(o@) =~= step_input(self@)->Object_0);
        Json::Object(o)
    }

    /// Settles the history and asks for a sample.
    fn settle(&mut self, events: Vec<AgentEvent>) -> (r: TurnAction)
        ensures
            follows(final(self)@, r, sampling(old(self)@, event_views(events@))),
    {
        let ghost before = self@;
        let mut events = events;
        if self.forced {
            let prompt =
                "Do not call tools. Synthesize the best self-contained answer supported by the evidence already gathered, follow the control-plane instruction above, and state any remaining limitations.";
            let asked = match last_item(&self.history) {
                Some(ModelInputItem::Message { role: MessageRole::User, content }) => same(
                    content.as_str(),
                    prompt,
                ),
                _ => false,
            };
            if !asked {
                self.history.push(user_text(prompt));
            }
        }
        assert(self@ == (TurnView { history: asked_history(before), ..before }));
        let removed = trim_history(&mut self.history, self.budget);
        if removed > 0 {
            events.push(AgentEvent::ContextTrimmed { removed_items: removed });
        }
        let estimated = estimate_history_tokens(&self.history);
        if estimated > self.budget {
            let budget = self.budget;
            return self.fail(events, AgentError::ContextWindowExceeded { estimated, budget });
        }
        events.push(self.record(self.step.saturating_sub(1), None));
        let request = self.step_request();
        let input = self.step_input(&request, estimated);
        events.push(AgentEvent::ModelStepStarted { step: self.step, input });
        let shown = request.clone();
        self.phase = Phase::Sampling(
            Attempt {
                request,
                retry: 0,
                usage: TokenUsage::default(),
                told_limit: false,
                told_empty: false,
            },
        );
        TurnAction { events, next: TurnNext::Sample { request: shown, tells: true } }
    }

    fn summarize(
        &mut self,
        before_tokens: usize,
        before_items: usize,
        outcome: Result<SampledStep, AgentError>,
        duration_ms: u64,
    ) -> (r: TurnAction)
        ensures
            follows(
                final(self)@,
                r,
                summarized(
                    old(self)@,
                    before_tokens as int,
                    before_items as int,
                    outcome_view(outcome),
                    duration_ms,
                ),
            ),
    {
        let sample = match outcome {
            Ok(sample) => sample,
            Err(e) => {
                return self.fail(no_events(), e);
            },
        };
        let summary = trim(sample.message.as_str());
        if summary.as_str().is_empty() {
            return self.fail(no_events(), AgentError::EmptyModelResponse);
        }
        let third: usize = self.budget / 3;
        let room: usize = if third < 20_000 {
            third
        } else {
            20_000
        };
        let compacted = build_compacted_history(&self.history, summary.as_str(), room);
        self.usage.saturating_add_assign(sample.usage);
        self.history = compacted;
        let after_tokens = estimate_history_tokens(&self.history);
        let removed_items = before_items.saturating_sub(self.history.len());
        let mut events = no_events();
        events.push(
            AgentEvent::ContextCompactionCompleted {
                before_tokens,
                after_tokens,
                removed_items,
                summary,
                usage: sample.usage,
                duration_ms,
            },
        );
        assert(event_views(events@) =~= seq![events@[0]@]);
        self.settle(events)
    }

    fn sample(
        &mut self,
        attempt: Attempt,
        outcome: Result<SampledStep, AgentError>,
        duration_ms: u64,
    ) -> (r: TurnAction)
        ensures
            follows(
                final(self)@,
                r,
                sampled(old(self)@, attempt@, outcome_view(outcome), duration_ms),
            ),
    {
        let (error, used) = match outcome {
            Ok(sample) => {
                if sample.message.as_str().is_empty() && sample.calls.len() == 0 {
                    (AgentError::EmptyModelResponse, sample.usage)
                } else {
                    return self.accept(sample, attempt.usage, duration_ms);
                }
            },
            Err(e) => {
                let used = match &e {
                    AgentError::Model(m) => match m.incomplete_usage() {
                        Some(usage) => usage,
                        None => TokenUsage::default(),
                    },
                    _ => TokenUsage::default(),
                };
                (e, used)
            },
        };
        let mut attempt = attempt;
        let ghost first = attempt@;
        attempt.usage.saturating_add_assign(used);
        let limit = error.is_output_limit();
        let empty = match &error {
            AgentError::EmptyModelResponse => true,
            _ => false,
        };
        let message = error.message();
        if !error.is_retryable() || attempt.retry >= 2 {
            let mut events = no_events();
            if attempt.usage != TokenUsage::default() {
                events.push(
                    AgentEvent::ModelStepFailed {
                        step: self.step,
                        error: message,
                        usage: attempt.usage,
                        duration_ms,
                    },
                );
                assert(event_views(events@) =~= seq![events@[0]@]);
            }
            return self.fail(events, error);
        }
        attempt.retry = attempt.retry + 1;
        if limit || empty {
            attempt.request.reasoning_effort = Some(ReasoningEffort::Low);
        }
        if limit && !attempt.told_limit {
            attempt.request.input.push(
                user_text(
                    "The previous provider response exhausted its output budget before completing. Restart from the original request, omit narrated analysis, and return a concise but complete result now.",
                ),
            );
        }
        if limit {
            attempt.told_limit = true;
        }
        if empty && !attempt.told_empty {
            attempt.request.input.push(
                user_text(
                    "The previous provider response completed without emitting an answer. Return the requested final answer now. Be concise, do not narrate hidden reasoning, and satisfy the original output format exactly.",
                ),
            );
        }
        if empty {
            attempt.told_empty = true;
        }
        assert(attempt@ == next_attempt(first, error@, used));
        let retry = attempt.retry;
        self.phase = Phase::Waiting(attempt);
        let mut events = no_events();
        events.push(AgentEvent::MessageReset);
        events.push(AgentEvent::SamplingRetry { attempt: retry, error: message });
        assert(event_views(events@) =~= seq![events@[0]@, events@[1]@]);
        TurnAction {
            events,
            next: TurnNext::Wait {
                millis: if retry <= 1 {
                    500
                } else {
                    1000
                },
            },
        }
    }

    fn accept(&mut self, sample: SampledStep, retry_usage: TokenUsage, duration_ms: u64) -> (r:
        TurnAction)
        requires
            sample@.message.len() > 0 || sample@.calls.len() > 0,
        ensures
            follows(
                final(self)@,
                r,
                accepted(old(self)@, sample@, retry_usage, duration_ms),
            ),
    {
        let ghost before = self@;
        let ghost view = sample@;
        let mut step_usage = sample.usage;
        step_usage.saturating_add_assign(retry_usage);
        match reserve_tool_call_ids(&sample.calls, &mut self.used_ids) {
            Ok(()) => {},
            Err(e) => {
                self.usage.saturating_add_assign(step_usage);
                let mut events = no_events();
                events.push(
                    AgentEvent::ModelStepFailed {
                        step: self.step,
                        error: e.message(),
                        usage: step_usage,
                        duration_ms,
                    },
                );
                assert(event_views(events@) =~= seq![events@[0]@]);
                return self.fail(events, e);
            },
        }
        self.usage.saturating_add_assign(step_usage);
        let mut events = no_events();
        let count = tell_searches(&sample.response_items, &mut events);
        assert(event_views(events@) =~= search_events(view.response_items));
        self.searches = if count > (u32::MAX - self.searches) as usize {
            u32::MAX
        } else {
            self.searches + count as u32
        };
        let output = inspectable_model_output(
            sample.message.as_str(),
            &sample.response_items,
            &sample.request_metadata,
        );
        events.push(
            AgentEvent::ModelStepCompleted {
                step: self.step,
                output,
                usage: step_usage,
                duration_ms,
            },
        );
        let calls = sample.calls;
        let message = sample.message;
        let items = sample.response_items;
        let spoken = !message.as_str().is_empty();
        let has_item = find_message(&items);
        let mut missing = missing_calls(&calls, &items);
        append_items(&mut self.history, items);
        if spoken {
            if !has_item {
                self.history.push(
                    ModelInputItem::Message {
                        role: MessageRole::Assistant,
                        content: message.clone(),
                    },
                );
            }
            events.push(AgentEvent::MessageCompleted { message: message.clone() });
        }
        let ghost partly = item_views(self.history@);
        let ghost rest = item_views(missing@);
        self.history.append(&mut missing);
        assert(item_views(self.history@) =~= partly + rest);
        assert(self@.history == answered_history(before.history, view));
        let final_message = if calls.len() == 0 {
            Some(message.clone())
        } else {
            None
        };
        events.push(self.record(self.step, final_message));
        if calls.len() == 0 {
            let result = AgentTurnResult {
                final_message: message,
                history: copy_items(&self.history),
                steps: self.step,
                usage: self.usage,
            };
            self.phase = Phase::Ended;
            return TurnAction { events, next: TurnNext::Done(Ok(result)) };
        }
        let ghost recorded = event_views(events@);
        let ghost starts = view.calls.map_values(
            |call: CallView| EventView::ToolCallStarted { call },
        );
        let mut i: usize = 0;
        assert(recorded + starts.take(0) =~= recorded);
        while i < calls.len()
            invariant
                i <= calls.len(),
                call_views(calls@) == view.calls,
                starts == view.calls.map_values(
                    |call: CallView| EventView::ToolCallStarted { call },
                ),
                event_views(events@) == recorded + starts.take(i as int),
            decreases calls.len() - i,
        {
            let call = calls[i].clone();
            assert(call@ == view.calls[i as int]);
            events.push(AgentEvent::ToolCallStarted { call });
            assert(event_views(events@) =~= recorded + starts.take(i + 1));
            i = i + 1;
        }
        assert(starts.take(starts.len() as int) =~= starts);
        let ghost told = event_views(events@);
        let ghost runs = view.calls.map_values(
            |call: CallView| EventView::ToolExecutionStarted { call_id: call.call_id },
        );
        let mut k: usize = 0;
        assert(told + runs.take(0) =~= told);
        while k < calls.len()
            invariant
                k <= calls.len(),
                call_views(calls@) == view.calls,
                runs == view.calls.map_values(
                    |call: CallView| EventView::ToolExecutionStarted { call_id: call.call_id },
                ),
                event_views(events@) == told + runs.take(k as int),
            decreases calls.len() - k,
        {
            assert(calls@[k as int]@ == view.calls[k as int]);
            events.push(AgentEvent::ToolExecutionStarted { call_id: calls[k].call_id.clone() });
            assert(event_views(events@) =~= told + runs.take(k + 1));
            k = k + 1;
        }
        assert(runs.take(runs.len() as int) =~= runs);
        let shown = copy_calls(&calls);
        self.phase = Phase::Tools(calls);
        TurnAction { events, next: TurnNext::RunTools { calls: shown } }
    }

    fn run_tools(&mut self, calls: Vec<ModelToolCall>, runs: Vec<ToolRun>) -> (r: TurnAction)
        requires
            calls@.len() == runs@.len(),
        ensures
            follows(final(self)@, r, ran(old(self)@, call_views(calls@), run_views(runs@))),
    {
        let ghost before = self@;
        let ghost asked = call_views(calls@);
        let ghost came = run_views(runs@);
        let mut events = no_events();
        let mut i: usize = 0;
        assert(with_outputs(before.history, asked, came, 0) =~= before.history);
        while i < calls.len()
            invariant
                i <= calls.len() == runs.len(),
                asked == call_views(calls@),
                came == run_views(runs@),
                self@ == (TurnView {
                    history: with_outputs(before.history, asked, came, i as nat),
                    ..before
                }),
                event_views(events@) == output_events(
                    before.history,
                    before.usage,
                    before.searches,
                    before.step,
                    asked,
                    came,
                    i as nat,
                ),
            decreases calls.len() - i,
        {
            assert(asked[i as int] == calls@[i as int]@);
            assert(came[i as int] == runs@[i as int]@);
            let item = ModelInputItem::FunctionCallOutput {
                call_id: calls[i].call_id.clone(),
                output: runs[i].output.clone(),
            };
            let ghost value = item@;
            self.history.push(item);
            assert(with_outputs(before.history, asked, came, (i + 1) as nat) =~= with_outputs(
                before.history,
                asked,
                came,
                i as nat,
            ).push(value));
            events.push(self.record(self.step, None));
            events.push(
                AgentEvent::ToolCallCompleted {
                    call_id: calls[i].call_id.clone(),
                    tool_name: calls[i].name.clone(),
                    output: runs[i].output.clone(),
                    duration_ms: runs[i].duration_ms,
                    success: runs[i].success,
                },
            );
            i = i + 1;
        }
        if self.step == u32::MAX {
            return self.fail(events, AgentError::StepCounterOverflow);
        }
        self.step = self.step + 1;
        self.phase = Phase::Control;
        TurnAction { events, next: TurnNext::Control }
    }

    /// Takes what happened outside and gives what to do next.
    #[verifier::rlimit(60)]
    pub fn advance(&mut self, input: TurnInput) -> (r: TurnAction)
        requires
            expects(old(self)@.phase, input),
        ensures
            follows(final(self)@, r, advanced(old(self)@, input)),
    {
        match input {
            TurnInput::Cancelled => self.fail(no_events(), AgentError::Cancelled),
            TurnInput::SinkFailed(message) => self.fail(
                no_events(),
                AgentError::EventSink(message),
            ),
            TurnInput::Control(Err(message)) => self.fail(
                no_events(),
                AgentError::Control(message),
            ),
            TurnInput::Control(Ok(checkpoint)) => self.control(checkpoint),
            TurnInput::Sampled { outcome, duration_ms } => {
                let mut phase = Phase::Ended;
                core::mem::swap(&mut phase, &mut self.phase);
                match phase {
                    Phase::Compacting { before_tokens, before_items } => self.summarize(
                        before_tokens,
                        before_items,
                        outcome,
                        duration_ms,
                    ),
                    Phase::Sampling(a) => self.sample(a, outcome, duration_ms),
                    _ => self.fail(no_events(), AgentError::Cancelled),
                }
            },
            TurnInput::Waited => {
                let mut phase = Phase::Ended;
                core::mem::swap(&mut phase, &mut self.phase);
                match phase {
                    Phase::Waiting(a) => {
                        let request = a.copy_request();
                        self.phase = Phase::Sampling(a);
                        TurnAction {
                            events: no_events(),
                            next: TurnNext::Sample { request, tells: true },
                        }
                    },
                    _ => self.fail(no_events(), AgentError::Cancelled),
                }
            },
            TurnInput::ToolsRan(runs) => {
                let mut phase = Phase::Ended;
                core::mem::swap(&mut phase, &mut self.phase);
                match phase {
                    Phase::Tools(calls) => self.run_tools(calls, runs),
                    _ => self.fail(no_events(), AgentError::Cancelled),
                }
            },
        }
    }
}

} // verus!
