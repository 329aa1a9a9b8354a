//! The agent loop, driven by scripted answers.

use papermachine::agent::error::AgentError;
use papermachine::agent::history::{
    build_compacted_history, estimate_history_tokens, estimate_text_tokens, reserve_tool_call_ids,
    tool_call_from_response_item, tool_call_ids_from_history, trim_history,
};
use papermachine::agent::request::{
    AgentCheckpoint, AgentEvent, AgentTurnRequest, AgentTurnResult, RecordingAgentEventSink,
};
use papermachine::agent::sample::Sampling;
use papermachine::agent::step::{
    agent_cache_config, history_token_budget, inspectable_model_output, prompt_cache_config,
};
use papermachine::agent::tools::{plan_call, ToolPlan};
use papermachine::agent::transitions::{ToolRun, TurnInput, TurnNext};
use papermachine::agent::turn::AgentTurn;
use papermachine::json::Json;
use papermachine::model::error::ModelError;
use papermachine::path::PathStyle;
use papermachine::protocol::ids::{AgentId, ProjectId, SessionId, TurnId, WorkspaceId};
use papermachine::protocol::model::{
    MessageRole, ModelEvent, ModelInputItem, ModelRequest, ModelResponseFormat, ModelToolCall,
    ModelToolChoice, ReasoningEffort, TokenUsage, ToolDefinition, WebSearchContextSize,
};
use papermachine::protocol::permissions::{AccessPreset, TurnEnvironmentSnapshot};
use papermachine::protocol::project::WorkspaceAttachment;

const UNIX: PathStyle = PathStyle::Unix;

fn json(text: &str) -> Json {
    Json::parse(text).expect("fixture should be JSON")
}

fn user(content: &str) -> ModelInputItem {
    ModelInputItem::Message { role: MessageRole::User, content: content.to_string() }
}

fn assistant(content: &str) -> ModelInputItem {
    ModelInputItem::Message { role: MessageRole::Assistant, content: content.to_string() }
}

fn usage(input: u64, output: u64, cached: u64) -> TokenUsage {
    TokenUsage {
        input_tokens: input,
        output_tokens: output,
        cached_input_tokens: cached,
        cache_write_input_tokens: 0,
    }
}

fn delta(text: &str) -> Result<ModelEvent, ModelError> {
    Ok(ModelEvent::OutputTextDelta { delta: text.to_string() })
}

fn item(text: &str) -> Result<ModelEvent, ModelError> {
    Ok(ModelEvent::ResponseItemCompleted { item: json(text) })
}

fn completed(usage: TokenUsage) -> Result<ModelEvent, ModelError> {
    Ok(ModelEvent::Completed { usage })
}

fn tool(name: &str, parallel: bool) -> ToolDefinition {
    ToolDefinition {
        name: name.to_string(),
        description: format!("{name} in the workspace"),
        input_schema: json(r#"{"type":"object"}"#),
        supports_parallel: parallel,
    }
}

fn read_tools() -> Vec<ToolDefinition> {
    vec![tool("read_file", true)]
}

fn read_write_tools() -> Vec<ToolDefinition> {
    vec![tool("read_file", true), tool("write_file", false)]
}

fn turn_environment(preset: AccessPreset) -> TurnEnvironmentSnapshot {
    TurnEnvironmentSnapshot::materialize(
        UNIX,
        WorkspaceAttachment::single(WorkspaceId(9), "/fixture".to_string()),
        "/fixture/managed".to_string(),
        preset,
        Some("/home/tester"),
    )
    .expect("fixture environment should materialize")
}

fn turn_request(preset: AccessPreset, instructions: &str, objective: &str) -> AgentTurnRequest {
    AgentTurnRequest::new(
        ProjectId(1),
        SessionId(2),
        AgentId(3),
        TurnId(4),
        turn_environment(preset),
        "/fixture/sandbox".to_string(),
        "test-model".to_string(),
        instructions.to_string(),
        objective.to_string(),
    )
}

type Script = Vec<Result<ModelEvent, ModelError>>;

struct Run {
    result: Result<AgentTurnResult, AgentError>,
    requests: Vec<ModelRequest>,
    events: Vec<AgentEvent>,
    /// The path and content of every file that was written.
    files: Vec<(String, String)>,
    waits: Vec<u64>,
}

fn run_tool(call: &ModelToolCall, files: &mut Vec<(String, String)>) -> ToolRun {
    match plan_call(call, Some(true)) {
        ToolPlan::Run { arguments, .. } => {
            let path = arguments.text_at("path").expect("path").to_string();
            if call.name == "write_file" {
                let content = arguments.text_at("content").expect("content").to_string();
                files.push((path, content));
            }
            ToolRun { output: json(r#"{"ok":true}"#), success: true, duration_ms: 3 }
        }
        ToolPlan::Refuse { message, .. } => {
            ToolRun { output: Json::text(&message), success: false, duration_ms: 0 }
        }
    }
}

fn sample(script: Script, tells: bool, events: &mut Vec<AgentEvent>) -> TurnInput {
    let mut sampling = Sampling::new(tells);
    for event in script {
        let told = match event {
            Ok(event) => sampling.receive(event),
            Err(error) => Err(AgentError::Model(error)),
        };
        match told {
            Ok(Some(delta)) => events.push(AgentEvent::MessageDelta { delta }),
            Ok(None) => {}
            Err(error) => return TurnInput::Sampled { outcome: Err(error), duration_ms: 5 },
        }
    }
    match sampling.finish() {
        Ok((told, step)) => {
            if let Some(delta) = told {
                events.push(AgentEvent::MessageDelta { delta });
            }
            TurnInput::Sampled { outcome: Ok(step), duration_ms: 5 }
        }
        Err(error) => TurnInput::Sampled { outcome: Err(error), duration_ms: 5 },
    }
}

fn drive(
    request: AgentTurnRequest,
    tools: Vec<ToolDefinition>,
    scripts: Vec<Script>,
    finish: Option<&str>,
) -> Run {
    let mut scripts = scripts.into_iter();
    let mut run = Run {
        result: Err(AgentError::Cancelled),
        requests: Vec::new(),
        events: Vec::new(),
        files: Vec::new(),
        waits: Vec::new(),
    };
    let (mut turn, mut action) = AgentTurn::start(request, tools);
    loop {
        run.events.extend(action.events);
        let input = match action.next {
            TurnNext::Control => TurnInput::Control(Ok(AgentCheckpoint {
                finish: finish.map(str::to_string),
                ..AgentCheckpoint::default()
            })),
            TurnNext::Sample { request, tells } => {
                run.requests.push(request);
                let script = scripts.next().expect("a script for every sample");
                sample(script, tells, &mut run.events)
            }
            TurnNext::Wait { millis } => {
                run.waits.push(millis);
                TurnInput::Waited
            }
            TurnNext::RunTools { calls } => TurnInput::ToolsRan(
                calls.iter().map(|call| run_tool(call, &mut run.files)).collect(),
            ),
            TurnNext::Done(result) => {
                run.result = result;
                return run;
            }
        };
        action = turn.advance(input);
    }
}

fn has_user_message(request: &ModelRequest, part: &str) -> bool {
    request.input.iter().any(|item| {
        matches!(item, ModelInputItem::Message { role: MessageRole::User, content } if content.contains(part))
    })
}

fn position(run: &Run, test: fn(&AgentEvent) -> bool) -> Option<usize> {
    run.events.iter().position(test)
}

#[test]
fn agent_executes_a_tool_then_follows_up() {
    let run = drive(
        turn_request(
            AccessPreset::Workspace,
            "Use tools and report evidence.",
            "Write the evidence file.",
        ),
        read_write_tools(),
        vec![
            vec![
                item(
                    r#"{"type":"reasoning","summary":[],"encrypted_content":"encrypted-reasoning"}"#,
                ),
                item(
                    r#"{"type":"function_call","call_id":"call-write","name":"write_file","arguments":"{\"path\":\"result.md\",\"content\":\"evidence\"}"}"#,
                ),
                completed(usage(20, 5, 0)),
            ],
            vec![delta("Research "), delta("complete."), completed(usage(30, 4, 10))],
        ],
        None,
    );
    let result = run.result.as_ref().expect("agent should finish");
    assert_eq!(result.final_message, "Research complete.");
    assert_eq!(result.steps, 2);
    assert_eq!(result.usage.input_tokens, 50);
    assert_eq!(run.files, vec![("result.md".to_string(), "evidence".to_string())]);

    let requests = &run.requests;
    assert_eq!(requests.len(), 2);
    assert!(!requests[0].tools.is_empty());
    assert_eq!(requests[0].tools, requests[1].tools);
    assert_eq!(requests[0].instructions, requests[1].instructions);
    assert_eq!(requests[0].tool_choice, ModelToolChoice::Auto);
    assert_eq!(requests[1].tool_choice, ModelToolChoice::Auto);
    assert!(requests[1].input.iter().any(
        |item| matches!(item, ModelInputItem::FunctionCallOutput { call_id, .. } if call_id == "call-write")
    ));
    assert!(requests[1].input.iter().any(|item| {
        matches!(item, ModelInputItem::ResponseItem { item } if item.text_at("type") == Some("reasoning"))
    }));
    assert!(run
        .events
        .iter()
        .any(|event| matches!(event, AgentEvent::ToolCallCompleted { success: true, .. })));
    assert_eq!(
        run.events.iter().filter(|event| matches!(event, AgentEvent::MessageDelta { .. })).count(),
        1
    );
    let call_checkpoint = position(&run, |event| {
        matches!(event, AgentEvent::HistoryCheckpoint { history, .. }
            if history.iter().any(|item| matches!(item, ModelInputItem::ResponseItem { item }
                if item.text_at("call_id") == Some("call-write"))))
    })
    .expect("the canonical function call should be checkpointed");
    let call_started = position(
        &run,
        |event| matches!(event, AgentEvent::ToolCallStarted { call } if call.call_id == "call-write"),
    )
    .expect("the tool call should start");
    assert!(call_checkpoint < call_started);
    let output_checkpoint = position(&run, |event| {
        matches!(event, AgentEvent::HistoryCheckpoint { history, .. }
            if history.iter().any(|item| matches!(item, ModelInputItem::FunctionCallOutput { call_id, .. }
                if call_id == "call-write")))
    })
    .expect("the canonical function-call output should be checkpointed");
    let call_completed = position(
        &run,
        |event| matches!(event, AgentEvent::ToolCallCompleted { call_id, .. } if call_id == "call-write"),
    )
    .expect("the tool call should complete");
    assert!(output_checkpoint < call_completed);
}

#[test]
fn duplicate_provider_tool_call_ids_fail_before_any_tool_event_or_execution() {
    let call = r#"{"type":"function_call","call_id":"duplicate-call","name":"write_file","arguments":"{\"path\":\"must-not-exist.txt\",\"content\":\"unsafe\"}"}"#;
    let run = drive(
        turn_request(AccessPreset::Workspace, "Use tools safely.", "Write one file."),
        read_write_tools(),
        vec![vec![item(call), item(call), completed(TokenUsage::default())]],
        None,
    );
    let error = run.result.expect_err("duplicate tool-call IDs must fail closed");
    assert!(error.message().contains("duplicate call ID"));
    assert!(run.files.is_empty());
    assert!(!run.events.iter().any(|event| matches!(event, AgentEvent::ToolCallStarted { .. })));
}

#[test]
fn hosted_search_usage_is_observed_across_a_turn() {
    let mut request =
        turn_request(AccessPreset::Workspace, "Research carefully.", "Read the evidence.");
    request.hosted_web_search_supported = true;
    request.web_search_context_size = Some(WebSearchContextSize::Low);
    let run = drive(
        request,
        read_tools(),
        vec![
            vec![
                item(
                    r#"{"type":"web_search_call","id":"search-1","status":"completed","action":{"type":"search","query":"research evidence"}}"#,
                ),
                item(
                    r#"{"type":"function_call","call_id":"call-read","name":"read_file","arguments":"{\"path\":\"evidence.txt\"}"}"#,
                ),
                completed(TokenUsage::default()),
            ],
            vec![delta("Done with search."), completed(TokenUsage::default())],
        ],
        None,
    );
    assert_eq!(run.result.expect("agent should finish").final_message, "Done with search.");
    assert_eq!(run.requests[0].hosted_tools.len(), 1);
    assert_eq!(run.requests[1].hosted_tools.len(), 1);
    assert_eq!(run.requests[1].tool_choice, ModelToolChoice::Auto);
    assert_eq!(
        run.events
            .iter()
            .filter(|event| matches!(event, AgentEvent::HostedToolCompleted { .. }))
            .count(),
        1
    );
}

#[test]
fn empty_registry_and_no_search_context_omit_all_tools() {
    let mut request =
        turn_request(AccessPreset::Workspace, "Research carefully.", "Find the answer.");
    request.hosted_web_search_supported = true;
    let run = drive(
        request,
        Vec::new(),
        vec![vec![delta("Enough evidence."), completed(TokenUsage::default())]],
        None,
    );
    run.result.expect("agent should finish");
    assert!(run.requests[0].tools.is_empty());
    assert!(run.requests[0].hosted_tools.is_empty());
}

#[test]
fn finish_control_forces_the_next_sample_to_disable_tools() {
    let run = drive(
        turn_request(AccessPreset::Workspace, "Research carefully.", "Continue researching."),
        read_tools(),
        vec![vec![delta("Final answer."), completed(usage(12, 4, 0))]],
        Some("Use the evidence already gathered."),
    );
    let result = run.result.expect("finish control should produce a final response");
    assert_eq!(result.final_message, "Final answer.");
    let requests = &run.requests;
    assert_eq!(requests.len(), 1);
    assert!(requests[0].tools.is_empty());
    assert!(requests[0].hosted_tools.is_empty());
    assert_eq!(requests[0].instructions, "Research carefully.");
    assert_eq!(requests[0].tool_choice, ModelToolChoice::Never);
    assert!(has_user_message(&requests[0], "finish now"));
    assert!(has_user_message(&requests[0], "Do not call tools"));
}

#[test]
fn empty_turn_registry_omits_local_tools_and_model_only_omits_hosted_tools() {
    let run = drive(
        turn_request(AccessPreset::ModelOnly, "Answer without tools.", "Answer directly."),
        Vec::new(),
        vec![vec![delta("No tools needed."), completed(TokenUsage::default())]],
        None,
    );
    run.result.expect("model-only turn should finish");
    assert_eq!(run.requests.len(), 1);
    assert!(run.requests[0].tools.is_empty());
    assert!(run.requests[0].hosted_tools.is_empty());
}

#[test]
fn long_session_history_is_compacted_before_the_next_sample() {
    let mut request = turn_request(
        AccessPreset::Workspace,
        "Continue the research.",
        "Resolve the remaining question.",
    );
    request.initial_history =
        vec![user("Original research objective"), assistant(&"evidence ".repeat(1_300))];
    request.model_context_window = 4_096;
    let run = drive(
        request,
        Vec::new(),
        vec![
            vec![
                delta("Verified source A; continue with the unresolved comparison."),
                completed(usage(2_600, 20, 2_000)),
            ],
            vec![delta("Final answer from compacted context."), completed(usage(100, 10, 0))],
        ],
        None,
    );
    let result = run.result.as_ref().expect("agent should compact and finish");
    assert_eq!(result.final_message, "Final answer from compacted context.");
    assert_eq!(result.usage.input_tokens, 2_700);
    assert_eq!(result.usage.cached_input_tokens, 2_000);

    let requests = &run.requests;
    assert_eq!(requests.len(), 2);
    let compact_cache =
        requests[0].prompt_cache.as_ref().expect("compaction should have a prompt-cache key");
    let final_cache =
        requests[1].prompt_cache.as_ref().expect("the sample should have a prompt-cache key");
    assert!(compact_cache.key.ends_with("-agent"));
    assert_ne!(compact_cache.key, AgentId(3).text());
    assert_eq!(compact_cache, final_cache);
    assert_eq!(requests[0].transport_session_key, requests[1].transport_session_key);
    assert_eq!(requests[0].transport_session_key, Some(AgentId(3).text()));
    assert!(requests[0].tools.is_empty());
    assert!(has_user_message(&requests[0], "context checkpoint compaction"));
    assert!(has_user_message(&requests[1], "following checkpoint"));
    assert!(!requests[1].input.iter().any(|item| {
        matches!(item, ModelInputItem::Message { role: MessageRole::Assistant, content }
            if content.starts_with("evidence"))
    }));
    assert!(run.events.iter().any(|event| matches!(
        event,
        AgentEvent::ContextCompactionCompleted { before_tokens, after_tokens, .. }
            if before_tokens > after_tokens
    )));
}

fn output_limit(usage: TokenUsage) -> Script {
    vec![Err(ModelError::IncompleteResponse { reason: "max_output_tokens".to_string(), usage })]
}

#[test]
fn output_limit_retry_is_concise_and_preserves_failed_usage() {
    let mut request =
        turn_request(AccessPreset::Workspace, "Return valid JSON.", "Plan the research routes.");
    request.reasoning_effort = Some(ReasoningEffort::High);
    let run = drive(
        request,
        Vec::new(),
        vec![
            output_limit(usage(11, 32_768, 7)),
            vec![delta("concise complete response"), completed(usage(4, 2, 0))],
        ],
        None,
    );
    let result = run.result.expect("agent should recover from output exhaustion");
    assert_eq!(result.final_message, "concise complete response");
    assert_eq!(result.usage.input_tokens, 15);
    assert_eq!(result.usage.output_tokens, 32_770);
    assert_eq!(result.usage.cached_input_tokens, 7);
    assert_eq!(run.requests.len(), 2);
    assert_eq!(run.requests[1].reasoning_effort, Some(ReasoningEffort::Low));
    assert!(has_user_message(&run.requests[1], "exhausted its output budget"));
    assert!(run.events.iter().any(|event| matches!(
        event,
        AgentEvent::SamplingRetry { attempt: 1, error } if error.contains("max_output_tokens")
    )));
}

#[test]
fn terminal_output_limit_failure_emits_all_consumed_usage() {
    let run = drive(
        turn_request(AccessPreset::Workspace, "Return valid JSON.", "Plan the research routes."),
        Vec::new(),
        vec![
            output_limit(usage(10, 100, 4)),
            output_limit(usage(10, 100, 4)),
            output_limit(usage(10, 100, 4)),
        ],
        None,
    );
    let error = run.result.expect_err("three output-limited samples should fail the turn");
    assert!(error.message().contains("max_output_tokens"));
    assert!(run.events.iter().any(|event| matches!(
        event,
        AgentEvent::ModelStepFailed { usage: failed, .. } if *failed == usage(30, 300, 12)
    )));
    assert_eq!(run.requests.len(), 3);
}

#[test]
fn retry_discards_partial_deltas_from_the_failed_attempt() {
    let run = drive(
        turn_request(AccessPreset::Workspace, "Return a short response.", "Test stream recovery."),
        Vec::new(),
        vec![
            vec![
                delta(&"discarded partial response".repeat(16)),
                Err(ModelError::Stream("connection interrupted".to_string())),
            ],
            vec![delta("successful response"), completed(usage(4, 2, 0))],
        ],
        None,
    );
    let result = run.result.expect("agent should recover from one interrupted stream");
    assert_eq!(result.final_message, "successful response");
    assert_eq!(run.requests.len(), 2);
    assert!(run
        .events
        .iter()
        .any(|event| matches!(event, AgentEvent::SamplingRetry { attempt: 1, .. })));
    let mut visible = String::new();
    for event in run.events {
        match event {
            AgentEvent::MessageDelta { delta } => visible.push_str(&delta),
            AgentEvent::MessageReset => visible.clear(),
            _ => {}
        }
    }
    assert_eq!(visible, "successful response");
}

#[test]
fn retry_recovers_when_provider_completes_with_reasoning_but_no_message() {
    let run = drive(
        turn_request(
            AccessPreset::Workspace,
            "Return a short response.",
            "Test empty completion recovery.",
        ),
        Vec::new(),
        vec![
            vec![item(r#"{"type":"reasoning","summary":[]}"#), completed(usage(12, 7, 8))],
            vec![delta("recovered response"), completed(usage(12, 3, 12))],
        ],
        None,
    );
    let result = run.result.expect("agent should retry an empty completion");
    assert_eq!(result.final_message, "recovered response");
    assert_eq!(result.usage.input_tokens, 24);
    assert_eq!(result.usage.output_tokens, 10);
    assert_eq!(result.usage.cached_input_tokens, 20);
    assert_eq!(run.requests.len(), 2);
    assert_eq!(run.requests[1].reasoning_effort, Some(ReasoningEffort::Low));
    assert!(has_user_message(&run.requests[1], "completed without emitting an answer"));
    assert!(run.events.iter().any(|event| matches!(
        event,
        AgentEvent::SamplingRetry { attempt: 1, error }
            if error.contains("without a message or tool call")
    )));
}

#[test]
fn history_trim_keeps_objective_and_drops_orphan_tool_output() {
    let mut history = vec![
        user("objective"),
        assistant(&"a".repeat(100)),
        ModelInputItem::FunctionCallOutput {
            call_id: "old".to_string(),
            output: json(&format!(r#"{{"long":"{}"}}"#, "b".repeat(100))),
        },
        assistant("final"),
    ];
    let removed = trim_history(&mut history, 20);
    assert!(removed > 0);
    assert!(matches!(history[0], ModelInputItem::Message { .. }));
    assert!(!matches!(history.get(1), Some(ModelInputItem::FunctionCallOutput { .. })));
}

#[test]
fn token_estimate_is_conservative_for_ascii_and_cjk() {
    assert_eq!(estimate_text_tokens("abcdefgh"), 2);
    assert_eq!(estimate_text_tokens("研究工作台"), 5);
}

fn cached_request(session: &str, question: &str, instructions: &str) -> ModelRequest {
    ModelRequest {
        model: "gpt-test".to_string(),
        reasoning_effort: None,
        instructions: instructions.to_string(),
        input: vec![user(question)],
        prompt_cache: None,
        transport_session_key: Some(session.to_string()),
        tools: vec![ToolDefinition {
            name: "search".to_string(),
            description: "Search evidence".to_string(),
            input_schema: json(r#"{"type":"object"}"#),
            supports_parallel: true,
        }],
        hosted_tools: Vec::new(),
        web_search_context_size: None,
        parallel_tool_calls: true,
        tool_choice: ModelToolChoice::Auto,
        response_format: None,
    }
}

#[test]
fn prompt_cache_key_is_stable_within_session_and_isolated_between_sessions() {
    let first =
        prompt_cache_config(&cached_request("session-a", "question A", "shared instructions"));
    let same_session =
        prompt_cache_config(&cached_request("session-a", "question B", "shared instructions"));
    let second =
        prompt_cache_config(&cached_request("session-b", "question A", "shared instructions"));
    let changed =
        prompt_cache_config(&cached_request("session-a", "question A", "different instructions"));
    let mut changed_shape = cached_request("session-a", "question A", "shared instructions");
    changed_shape.tools.clear();
    changed_shape.response_format = Some(ModelResponseFormat {
        name: "audit_result".to_string(),
        schema: json(r#"{"type":"object"}"#),
        strict: false,
    });
    let changed_shape = prompt_cache_config(&changed_shape);

    assert_eq!(first, same_session);
    assert_eq!(first, changed);
    assert_eq!(first, changed_shape);
    assert_ne!(first, second);
    assert!(first.key.ends_with("-session"));
    assert!(!first.key.contains("session-a"));
}

#[test]
fn identifiers_are_written_in_groups() {
    assert_eq!(AgentId(3).text(), "00000000-0000-0000-0000-000000000003");
    assert_eq!(
        AgentId(0x0123456789abcdef0123456789abcdef).text(),
        "01234567-89ab-cdef-0123-456789abcdef"
    );
    assert_eq!(AgentId(u128::MAX).text(), "ffffffff-ffff-ffff-ffff-ffffffffffff");
    assert_ne!(AgentId(1 << 64).text(), AgentId(1 << 63).text());
}

#[test]
fn cache_keys_are_digits_and_what_they_are_for() {
    let session = prompt_cache_config(&cached_request("session-a", "q", "i"));
    let agent = agent_cache_config("session-a", "gpt-test");
    assert_eq!(agent.key.len(), 32 + "-agent".len());
    assert_eq!(session.key.len(), 32 + "-session".len());
    assert_eq!(agent.key.strip_suffix("-agent"), session.key.strip_suffix("-session"));
    assert!(agent.key[..32].chars().all(|c| c.is_ascii_digit() || ('a'..='f').contains(&c)));
    assert_ne!(agent, agent_cache_config("session-b", "gpt-test"));
    assert_ne!(agent, agent_cache_config("session-a", "gpt-other"));
}

#[test]
fn inspectable_model_output_excludes_encrypted_reasoning() {
    let output = inspectable_model_output(
        "answer",
        &vec![json(
            r#"{"type":"reasoning","summary":[{"type":"summary_text","text":"checked evidence"}],"encrypted_content":"secret-replay-state"}"#,
        )],
        &None,
    );
    let serialized = output.render();
    assert!(serialized.contains("checked evidence"));
    assert!(!serialized.contains("secret-replay-state"));
}

#[test]
fn compaction_keeps_what_people_said() {
    let history = vec![user("first"), assistant("thoughts"), user("second")];
    let compacted = build_compacted_history(&history, "what was found", 1_000);
    assert!(compacted.contains(&user("first")));
    assert!(compacted.contains(&user("second")));
    assert!(!compacted.contains(&assistant("thoughts")));
    assert!(matches!(compacted.last(), Some(ModelInputItem::Message { content, .. })
        if content.contains("what was found")));
}

#[test]
fn a_short_history_is_not_trimmed() {
    let mut history = vec![user("objective"), assistant("answer")];
    let tokens = estimate_history_tokens(&history);
    assert_eq!(trim_history(&mut history, tokens), 0);
    assert_eq!(history.len(), 2);
}

#[test]
fn call_ids_are_reserved_all_or_none() {
    let call = |id: &str| ModelToolCall {
        call_id: id.to_string(),
        name: "read_file".to_string(),
        arguments: "{}".to_string(),
    };
    let mut used = vec!["old".to_string()];
    let refused = reserve_tool_call_ids(&vec![call("new"), call("old")], &mut used);
    assert!(refused.expect_err("taken").message().contains("duplicate call ID \"old\""));
    assert_eq!(used, vec!["old".to_string()]);
    let blank = reserve_tool_call_ids(&vec![call(" ")], &mut used);
    assert!(blank.expect_err("blank").message().contains("call ID is empty"));
    let long = reserve_tool_call_ids(&vec![call(&"x".repeat(513))], &mut used);
    assert!(long.expect_err("long").message().contains("call ID exceeds 512 bytes"));
    reserve_tool_call_ids(&vec![call("a"), call("b")], &mut used).expect("new");
    assert_eq!(used, vec!["old".to_string(), "a".to_string(), "b".to_string()]);
}

#[test]
fn calls_are_read_from_items() {
    let call = tool_call_from_response_item(&json(
        r#"{"type":"function_call","call_id":"c","name":"n","arguments":"{}"}"#,
    ))
    .expect("well formed")
    .expect("a call");
    assert_eq!((call.call_id.as_str(), call.name.as_str(), call.arguments.as_str()), ("c", "n", "{}"));
    assert!(tool_call_from_response_item(&json(r#"{"type":"message"}"#)).expect("no call").is_none());
    let fault = tool_call_from_response_item(&json(r#"{"type":"function_call","call_id":"c"}"#))
        .expect_err("no name");
    assert!(fault.message().contains("function call missing"));
    let history = vec![ModelInputItem::FunctionCall {
        call_id: "seen".to_string(),
        name: "n".to_string(),
        arguments: "{}".to_string(),
    }];
    assert_eq!(tool_call_ids_from_history(&history), vec!["seen".to_string()]);
}

#[test]
fn a_window_without_room_is_refused() {
    let instructions = "x".repeat(40_000);
    let refused = history_token_budget(4_096, &instructions, &Vec::new());
    assert!(matches!(refused, Err(AgentError::ContextWindowTooSmall { window: 4_096, .. })));
    assert!(history_token_budget(128_000, "short", &Vec::new()).expect("room") > 0);
}

#[test]
fn arguments_that_are_no_json_are_refused() {
    let call = ModelToolCall {
        call_id: "c".to_string(),
        name: "write_file".to_string(),
        arguments: "{".to_string(),
    };
    assert!(matches!(plan_call(&call, Some(true)), ToolPlan::Refuse { tool, .. } if tool == "write_file"));
    let call = ModelToolCall { arguments: "{}".to_string(), ..call };
    assert!(matches!(plan_call(&call, Some(false)), ToolPlan::Run { exclusive: true, .. }));
    assert!(matches!(plan_call(&call, Some(true)), ToolPlan::Run { exclusive: false, .. }));
    assert!(matches!(plan_call(&call, None), ToolPlan::Run { exclusive: true, .. }));
}

#[test]
fn a_cancelled_turn_ends() {
    let (mut turn, action) = AgentTurn::start(
        turn_request(AccessPreset::Workspace, "Research.", "Find."),
        Vec::new(),
    );
    assert!(matches!(action.next, TurnNext::Control));
    let action = turn.advance(TurnInput::Cancelled);
    assert!(matches!(action.next, TurnNext::Done(Err(AgentError::Cancelled))));
}

#[test]
fn an_interrupted_turn_says_why() {
    let (mut turn, _) = AgentTurn::start(
        turn_request(AccessPreset::Workspace, "Research.", "Find."),
        Vec::new(),
    );
    let action = turn.advance(TurnInput::Control(Ok(AgentCheckpoint {
        interrupt: Some("stop here".to_string()),
        ..AgentCheckpoint::default()
    })));
    match action.next {
        TurnNext::Done(Err(error)) => assert!(error.message().contains("stop here")),
        other => panic!("the Turn should end, not {other:?}"),
    }
}

#[test]
fn a_recording_sink_keeps_the_order() {
    let mut sink = RecordingAgentEventSink::default();
    assert!(sink.events().is_empty());
    assert_eq!(sink.emit(AgentEvent::MessageReset), Ok(()));
    let event = AgentEvent::MessageDelta { delta: "a".to_string() };
    assert_eq!(sink.emit(event), Ok(()));
    assert_eq!(sink.events().len(), 2);
    assert_eq!(sink.events()[0], AgentEvent::MessageReset);
    assert_eq!(sink.events()[1], AgentEvent::MessageDelta { delta: "a".to_string() });
}
