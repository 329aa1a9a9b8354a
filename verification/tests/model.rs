//! Requests to model providers and their answers.

use papermachine::json::Json;
use papermachine::model::chat::{
    chat_messages, chat_metadata, replayable_tool_arguments, request_body as chat_body,
    tool_output_content, OpenAiChatCompatibility, OpenAiChatConfig,
};
use papermachine::model::chat_stream::{ChatStep, ChatStreamState};
use papermachine::model::configured::ConfiguredModels;
use papermachine::model::endpoint::{
    chat_completions_endpoint, normalize_base_url, parse_url, responses_endpoint,
    websocket_endpoint,
};
use papermachine::model::error::ModelError;
use papermachine::model::http::{
    attempt_step, choose_transport, configured_cache_mode, control_probe_result, error_step,
    fall_back, http_metadata, is_header_value, marked_probe_result, request_retry_delay,
    resolve_prompt_cache_mode, socket_headers, sse_step, AttemptOutcome, AttemptStep, ErrorBody,
    PromptCacheCapability, SseMessage, SseStep, TransportChoice,
};
use papermachine::model::providers::{
    positive_duration, validate_identifier, ModelApi, ModelCapability, ModelConfigFile,
    ModelProfileFile, ProviderConfigFile, DEFAULT_MODEL_REQUEST_TIMEOUT,
    DEFAULT_MODEL_STREAM_IDLE_TIMEOUT,
};
use papermachine::model::responses::{
    parse_event_data, prompt_cache_probe_body, request_body, sanitize_response_item,
    OpenAiPromptCacheMode, OpenAiReasoningEffort, OpenAiResponsesConfig,
};
use papermachine::model::route::hash_route_config;
use papermachine::model::router::{annotate_event, ModelProfile, ModelRouter, ProfileClient};
use papermachine::model::scripted::ScriptedModelClient;
use papermachine::model::sessions::{
    store_session, uses_fallback, TimedTable, MAX_SOCKET_SESSIONS, SOCKET_FALLBACK_TTL,
};
use papermachine::model::websocket::{
    prepare_socket_request, websocket_continuation, websocket_request_body,
    websocket_request_properties, SocketMemory, SocketMessage, SocketReply, SocketStep,
};
use papermachine::protocol::model::{
    HostedTool, MessageRole, ModelEvent, ModelInputItem, ModelRequest, ModelRequestMetadata,
    ModelResponseFormat, ModelToolChoice, ModelTransport, PromptCacheConfig, PromptCacheMode,
    PromptCacheStrategy, ReasoningEffort, TokenUsage, ToolDefinition, WebSearchContextSize,
};

fn json(text: &str) -> Json {
    Json::parse(text).expect("fixture should be JSON")
}

/// The value that a path of keys and places leads to.
fn at<'a>(value: &'a Json, path: &str) -> Option<&'a Json> {
    let mut current = value;
    for part in path.split('/') {
        current = match current {
            Json::Array(items) => items.get(part.parse::<usize>().ok()?)?,
            other => other.get(part)?,
        };
    }
    Some(current)
}

fn text<'a>(value: &'a Json, path: &str) -> Option<&'a str> {
    at(value, path)?.as_str()
}

fn user(content: &str) -> ModelInputItem {
    ModelInputItem::Message { role: MessageRole::User, content: content.to_string() }
}

fn test_config() -> OpenAiResponsesConfig {
    OpenAiResponsesConfig {
        provider_id: "test-openai".to_string(),
        endpoint: "https://api.openai.com/v1/responses".to_string(),
        api_key: "test-key".to_string(),
        organization: None,
        project: None,
        max_request_retries: 0,
        request_timeout_seconds: DEFAULT_MODEL_REQUEST_TIMEOUT,
        stream_idle_timeout_seconds: DEFAULT_MODEL_STREAM_IDLE_TIMEOUT,
        reasoning_effort: Some(OpenAiReasoningEffort::Medium),
        store_responses: false,
        responses_websockets: true,
        hosted_web_search: false,
        prompt_cache_mode: OpenAiPromptCacheMode::Implicit,
    }
}

fn plain_request(model: &str, input: Vec<ModelInputItem>) -> ModelRequest {
    ModelRequest {
        model: model.to_string(),
        reasoning_effort: None,
        instructions: "research carefully".to_string(),
        input,
        prompt_cache: None,
        transport_session_key: None,
        tools: Vec::new(),
        hosted_tools: Vec::new(),
        web_search_context_size: None,
        parallel_tool_calls: false,
        tool_choice: ModelToolChoice::Auto,
        response_format: None,
    }
}

fn cache(key: &str, strategy: PromptCacheStrategy) -> Option<PromptCacheConfig> {
    Some(PromptCacheConfig { key: key.to_string(), strategy })
}

#[test]
fn request_body_contains_function_tools_and_history() {
    let request = ModelRequest {
        model: "gpt-5.6-sol".to_string(),
        reasoning_effort: Some(ReasoningEffort::High),
        instructions: "research carefully".to_string(),
        input: vec![user("question")],
        prompt_cache: cache("prefix-123", PromptCacheStrategy::Auto),
        transport_session_key: Some("turn-123".to_string()),
        tools: vec![ToolDefinition {
            name: "run_program".to_string(),
            description: "Run a program".to_string(),
            input_schema: json(r#"{"type":"object"}"#),
            supports_parallel: false,
        }],
        hosted_tools: vec![HostedTool::WebSearch],
        web_search_context_size: Some(WebSearchContextSize::Low),
        parallel_tool_calls: true,
        tool_choice: ModelToolChoice::Auto,
        response_format: Some(ModelResponseFormat {
            name: "research_result".to_string(),
            schema: json(
                r#"{"type":"object","properties":{"result":{"type":"string"}},"required":["result"],"additionalProperties":false}"#,
            ),
            strict: true,
        }),
    };
    let body = request_body(&request, &test_config(), PromptCacheMode::Implicit);
    assert_eq!(text(&body, "model"), Some("gpt-5.6-sol"));
    assert_eq!(text(&body, "prompt_cache_key"), Some("prefix-123"));
    assert!(body.get("prompt_cache_options").is_none());
    assert!(at(&body, "input/0/content/0/prompt_cache_breakpoint").is_none());
    assert_eq!(text(&body, "tools/0/name"), Some("run_program"));
    assert_eq!(text(&body, "tools/1/type"), Some("web_search"));
    assert_eq!(text(&body, "tools/1/search_context_size"), Some("low"));
    assert_eq!(text(&body, "input/0/content/0/type"), Some("input_text"));
    assert_eq!(text(&body, "reasoning/effort"), Some("high"));
    assert_eq!(text(&body, "text/format/type"), Some("json_schema"));
    assert_eq!(at(&body, "store"), Some(&Json::Bool(false)));
}

#[test]
fn implicit_mode_uses_provider_managed_prompt_caching() {
    let mut request = plain_request("gpt-5.5", vec![user("question")]);
    request.prompt_cache = cache("prefix-123", PromptCacheStrategy::Auto);
    request.transport_session_key = Some("turn-123".to_string());
    request.parallel_tool_calls = true;
    let body = request_body(&request, &test_config(), PromptCacheMode::Implicit);
    assert!(body.get("prompt_cache_options").is_none());
    assert!(at(&body, "input/0/content/0/prompt_cache_breakpoint").is_none());
}

#[test]
fn explicit_mode_marks_only_the_stable_instruction_prefix() {
    let mut request = plain_request("gpt-5.6-sol", vec![user("question")]);
    request.prompt_cache = cache("prefix-123", PromptCacheStrategy::Explicit);
    request.transport_session_key = Some("turn-123".to_string());
    request.tool_choice = ModelToolChoice::Never;
    let body = request_body(&request, &test_config(), PromptCacheMode::Explicit);
    assert_eq!(text(&body, "instructions"), Some(""));
    assert_eq!(text(&body, "prompt_cache_key"), Some("prefix-123"));
    assert_eq!(text(&body, "prompt_cache_options/mode"), Some("explicit"));
    assert_eq!(body.items_at("input").map(Vec::len), Some(2));
    assert_eq!(text(&body, "input/0/role"), Some("developer"));
    assert_eq!(text(&body, "input/0/content/0/prompt_cache_breakpoint/mode"), Some("explicit"));
    assert!(at(&body, "input/1/content/0/prompt_cache_breakpoint").is_none());
    assert_eq!(text(&body, "tool_choice"), Some("none"));
}

#[test]
fn capability_probe_differs_only_by_explicit_cache_fields() {
    let marked = prompt_cache_probe_body("gpt-test", true);
    let control = prompt_cache_probe_body("gpt-test", false);
    assert_eq!(text(&marked, "input/0/content/0/prompt_cache_breakpoint/mode"), Some("explicit"));
    assert_eq!(text(&marked, "prompt_cache_options/mode"), Some("explicit"));
    assert!(at(&control, "input/0/content/0/prompt_cache_breakpoint").is_none());
    assert!(control.get("prompt_cache_options").is_none());
    assert_eq!(at(&marked, "prompt_cache_key"), at(&control, "prompt_cache_key"));
}

#[test]
fn websocket_continuation_ignores_per_response_tool_choice() {
    let first = json(
        r#"{"type":"response.create","input":[{"role":"user","content":"question"}],"tool_choice":"auto","parallel_tool_calls":true}"#,
    );
    let second = json(
        r#"{"type":"response.create","input":[{"role":"user","content":"question"}],"tool_choice":"none","parallel_tool_calls":false}"#,
    );
    assert_eq!(websocket_request_properties(&first), websocket_request_properties(&second));
}

#[test]
fn auto_cache_mode_falls_back_when_provider_rejects_breakpoints() {
    let mut config = test_config();
    config.responses_websockets = false;
    config.prompt_cache_mode = OpenAiPromptCacheMode::Auto;
    let mut request = plain_request("gpt-test", vec![user("dynamic question")]);
    request.instructions = "stable instructions".to_string();
    request.prompt_cache = cache("stable-prefix", PromptCacheStrategy::Auto);

    let mut requests = Vec::new();
    let asked = configured_cache_mode(&request, &config);
    assert_eq!(asked, OpenAiPromptCacheMode::Auto);
    requests.push(prompt_cache_probe_body("gpt-test", true));
    // The provider rejects the marked probe with 502 and accepts the control.
    assert_eq!(marked_probe_result(Some(502)), None);
    requests.push(prompt_cache_probe_body("gpt-test", false));
    let capability = control_probe_result(Some(200));
    assert_eq!(capability, PromptCacheCapability::Unsupported);
    let mode = resolve_prompt_cache_mode(asked, capability);
    requests.push(request_body(&request, &config, mode));
    let metadata = http_metadata(&request, &config, mode, None);
    assert_eq!(metadata.transport, ModelTransport::HttpSse);
    assert_eq!(metadata.prompt_cache_mode, PromptCacheMode::Implicit);
    assert!(!metadata.prompt_cache_breakpoint);

    assert_eq!(requests.len(), 3);
    assert!(at(&requests[0], "input/0/content/0/prompt_cache_breakpoint").is_some());
    assert_eq!(at(&requests[1], "stream"), Some(&Json::Bool(false)));
    assert_eq!(at(&requests[2], "stream"), Some(&Json::Bool(true)));
    assert_eq!(text(&requests[2], "instructions"), Some("stable instructions"));
    assert!(requests[2].get("prompt_cache_options").is_none());
    assert!(at(&requests[2], "input/0/content/0/prompt_cache_breakpoint").is_none());
}

#[test]
fn parses_streamed_tool_call_and_usage() {
    let tool = parse_event_data(
        r#"{"type":"response.output_item.done","item":{"type":"function_call","call_id":"call-1","name":"read_file","arguments":"{\"path\":\"paper.md\"}"}}"#,
    )
    .expect("tool event should parse")
    .expect("tool event should be emitted");
    let ModelEvent::ResponseItemCompleted { item } = tool else {
        panic!("expected a replayable response item");
    };
    assert_eq!(text(&item, "type"), Some("function_call"));
    assert_eq!(text(&item, "call_id"), Some("call-1"));

    let completed = parse_event_data(
        r#"{"type":"response.completed","response":{"usage":{"input_tokens":20,"output_tokens":5,"input_tokens_details":{"cached_tokens":8,"cache_write_tokens":12}}}}"#,
    )
    .expect("completion should parse")
    .expect("completion should be emitted");
    assert_eq!(
        completed,
        ModelEvent::Completed {
            usage: TokenUsage {
                input_tokens: 20,
                output_tokens: 5,
                cached_input_tokens: 8,
                cache_write_input_tokens: 12,
            }
        }
    );
}

#[test]
fn incomplete_response_preserves_usage_for_retry_accounting() {
    let error = parse_event_data(
        r#"{"type":"response.incomplete","response":{"incomplete_details":{"reason":"max_output_tokens"},"usage":{"input_tokens":12,"output_tokens":32768,"input_tokens_details":{"cached_tokens":8}}}}"#,
    )
    .expect_err("incomplete response should stop the sample");
    assert!(matches!(
        error,
        ModelError::IncompleteResponse {
            reason,
            usage: TokenUsage {
                input_tokens: 12,
                output_tokens: 32_768,
                cached_input_tokens: 8,
                ..
            }
        } if reason == "max_output_tokens"
    ));
}

fn completed_event(response_id: &str) -> String {
    format!(
        r#"{{"type":"response.completed","response":{{"id":"{response_id}","usage":{{"input_tokens":20,"output_tokens":5,"input_tokens_details":{{"cached_tokens":0,"cache_write_tokens":20}}}}}}}}"#
    )
}

#[test]
fn websocket_continuation_sends_only_new_input_items() {
    let config = test_config();
    let mut first_request = plain_request("gpt-5.6-sol", vec![user("Read the paper")]);
    first_request.instructions = "Use tools carefully".to_string();
    first_request.prompt_cache = cache("prefix-123", PromptCacheStrategy::Auto);
    first_request.transport_session_key = Some("turn-123".to_string());
    first_request.parallel_tool_calls = true;

    let memory = SocketMemory::fresh();
    let sent =
        prepare_socket_request(&memory, &first_request, &config, PromptCacheMode::Implicit);
    let first = &sent.body;
    assert_eq!(text(first, "type"), Some("response.create"));
    assert_eq!(first.items_at("input").map(Vec::len), Some(1));
    assert_eq!(text(first, "tool_choice"), Some("auto"));
    assert!(first.get("previous_response_id").is_none());
    assert!(first.get("stream").is_none());

    let mut reply = SocketReply::new(sent.properties, sent.input, 300);
    let told = reply.receive(SocketMessage::Text(
        r#"{"type":"response.output_item.done","item":{"type":"function_call","call_id":"call-1","name":"read_file","arguments":"{\"path\":\"paper.md\"}"}}"#.to_string(),
    ));
    let SocketStep::Tell(ModelEvent::ResponseItemCompleted { item: call_item }) = told else {
        panic!("first response should contain a call item");
    };
    let SocketStep::Finish { memory, .. } =
        reply.receive(SocketMessage::Text(completed_event("resp-1")))
    else {
        panic!("first stream should complete");
    };

    let mut second_request = first_request;
    second_request.input.push(ModelInputItem::ResponseItem { item: call_item });
    second_request.input.push(ModelInputItem::FunctionCallOutput {
        call_id: "call-1".to_string(),
        output: json(r#"{"content":"paper text"}"#),
    });
    second_request.tool_choice = ModelToolChoice::Never;
    let sent =
        prepare_socket_request(&memory, &second_request, &config, PromptCacheMode::Implicit);
    let second = &sent.body;
    assert_eq!(text(second, "previous_response_id"), Some("resp-1"));
    assert_eq!(second.items_at("input").map(Vec::len), Some(1));
    assert_eq!(text(second, "input/0/type"), Some("function_call_output"));
    assert_eq!(text(second, "input/0/call_id"), Some("call-1"));
    assert_eq!(text(second, "tool_choice"), Some("none"));
    assert_eq!(sent.metadata.transport, ModelTransport::ResponsesWebsocket);
    assert_eq!(sent.metadata.prompt_cache_mode, PromptCacheMode::Implicit);
    assert!(sent.metadata.used_previous_response_id);
    assert_eq!(sent.metadata.continuation_miss_reason, None);
}

#[test]
fn a_changed_history_is_sent_whole() {
    let config = test_config();
    let request = plain_request("m", vec![user("one")]);
    let body = websocket_request_body(&request, &config, PromptCacheMode::Implicit);
    let properties = websocket_request_properties(&body);
    let input = body.items_at("input").expect("input");
    let memory = SocketMemory {
        last_request_properties: properties.clone(),
        last_request_input: vec![json(r#"{"other":true}"#)],
        last_response_id: "resp".to_string(),
        last_response_items: Vec::new(),
    };
    let decision = websocket_continuation(&memory, &properties, input);
    assert!(decision.incremental_input.is_none());
    assert!(decision.miss_reason.is_some());
    let decision = websocket_continuation(&SocketMemory::fresh(), &properties, input);
    assert!(decision.incremental_input.is_none());
}

#[test]
fn a_socket_that_breaks_early_falls_back() {
    let mut reply = SocketReply::new(Json::Null, Vec::new(), 7);
    assert!(matches!(reply.receive(SocketMessage::Ping), SocketStep::Pong));
    assert!(matches!(reply.receive(SocketMessage::Pong), SocketStep::Wait));
    assert!(matches!(
        reply.receive(SocketMessage::Broken("reset".to_string())),
        SocketStep::Fail { error, .. } if error.message().contains("reset")
    ));
    let mut reply = SocketReply::new(Json::Null, Vec::new(), 7);
    assert!(matches!(
        reply.receive(SocketMessage::Idle),
        SocketStep::Fail { error, .. } if error.message().contains('7')
    ));
    let mut reply = SocketReply::new(Json::Null, Vec::new(), 7);
    assert!(matches!(
        reply.receive(SocketMessage::Binary(vec![0xff, 0xfe])),
        SocketStep::Fail { error, .. } if error.message().contains("utf-8")
    ));
}

fn sample_config(compatibility: OpenAiChatCompatibility) -> OpenAiChatConfig {
    OpenAiChatConfig {
        provider_id: "test-provider".to_string(),
        endpoint: "https://models.example.test/v1/chat/completions".to_string(),
        api_key: "secret".to_string(),
        organization: None,
        project: None,
        max_request_retries: 0,
        request_timeout_seconds: 30,
        stream_idle_timeout_seconds: 30,
        reasoning_effort: Some(OpenAiReasoningEffort::High),
        compatibility,
    }
}

fn sample_request() -> ModelRequest {
    ModelRequest {
        model: "upstream-model".to_string(),
        reasoning_effort: None,
        instructions: "system rules".to_string(),
        input: vec![
            user("question"),
            ModelInputItem::ResponseItem {
                item: json(
                    r#"{"type":"reasoning","content":[{"type":"reasoning_text","text":"thought"}]}"#,
                ),
            },
            ModelInputItem::ResponseItem {
                item: json(
                    r#"{"type":"message","role":"assistant","content":[{"type":"output_text","text":"checking"}]}"#,
                ),
            },
            ModelInputItem::ResponseItem {
                item: json(
                    r#"{"type":"function_call","call_id":"call-1","name":"read_file","arguments":"{\"path\":\"notes.md\"}"}"#,
                ),
            },
            ModelInputItem::FunctionCallOutput {
                call_id: "call-1".to_string(),
                output: Json::text("file contents"),
            },
        ],
        prompt_cache: None,
        transport_session_key: None,
        tools: vec![ToolDefinition {
            name: "read_file".to_string(),
            description: "Read a file".to_string(),
            input_schema: json(
                r#"{"type":"object","properties":{"path":{"type":"string"}},"required":["path"]}"#,
            ),
            supports_parallel: true,
        }],
        hosted_tools: Vec::new(),
        web_search_context_size: None,
        parallel_tool_calls: true,
        tool_choice: ModelToolChoice::Auto,
        response_format: Some(ModelResponseFormat {
            name: "decision".to_string(),
            schema: json(
                r#"{"type":"object","properties":{"status":{"type":"string"}},"required":["status"]}"#,
            ),
            strict: true,
        }),
    }
}

#[test]
fn derives_chat_completions_endpoint() {
    assert_eq!(
        chat_completions_endpoint("https://api.example.test/v1").expect("base URL should resolve"),
        "https://api.example.test/v1/chat/completions"
    );
    assert_eq!(
        chat_completions_endpoint("https://api.example.test/v1/chat/completions")
            .expect("complete endpoint should stay unchanged"),
        "https://api.example.test/v1/chat/completions"
    );
}

#[test]
fn deepseek_request_preserves_history_tools_and_reasoning() {
    let body = chat_body(&sample_request(), &sample_config(OpenAiChatCompatibility::Deepseek))
        .expect("request should render");
    assert_eq!(text(&body, "model"), Some("upstream-model"));
    assert!(at(&body, "messages/0")
        .expect("system")
        .alike(&json(r#"{"role":"system","content":"system rules"}"#)));
    assert!(at(&body, "messages/1")
        .expect("user")
        .alike(&json(r#"{"role":"user","content":"question"}"#)));
    assert_eq!(text(&body, "messages/2/content"), Some("checking"));
    assert_eq!(text(&body, "messages/2/reasoning_content"), Some("thought"));
    assert_eq!(text(&body, "messages/2/tool_calls/0/id"), Some("call-1"));
    assert_eq!(
        text(&body, "messages/2/tool_calls/0/function/arguments"),
        Some("{\"path\":\"notes.md\"}")
    );
    assert_eq!(text(&body, "messages/3/content"), Some("file contents"));
    assert_eq!(text(&body, "tools/0/function/name"), Some("read_file"));
    assert_eq!(text(&body, "tool_choice"), Some("auto"));
    assert!(body.get("parallel_tool_calls").is_none());
    assert_eq!(text(&body, "thinking/type"), Some("enabled"));
    assert_eq!(text(&body, "reasoning_effort"), Some("high"));
    assert!(at(&body, "response_format").expect("format").alike(&json(r#"{"type":"json_object"}"#)));
    assert!(at(&body, "stream_options").expect("options").alike(&json(r#"{"include_usage":true}"#)));
}

#[test]
fn reasoning_only_history_is_not_dropped_before_retry_guidance() {
    let mut request = sample_request();
    request.input = vec![
        ModelInputItem::ResponseItem {
            item: json(r#"{"type":"reasoning","content":"partial thought"}"#),
        },
        user("Please return a final answer."),
    ];
    let messages = chat_messages(&request).expect("history should render");
    assert_eq!(text(&messages[1], "role"), Some("assistant"));
    assert_eq!(text(&messages[1], "reasoning_content"), Some("partial thought"));
    assert!(matches!(at(&messages[1], "content"), None | Some(Json::Null)));
    assert_eq!(text(&messages[2], "role"), Some("user"));
}

#[test]
fn generic_request_keeps_json_schema_and_parallel_setting() {
    let body = chat_body(&sample_request(), &sample_config(OpenAiChatCompatibility::Generic))
        .expect("request should render");
    assert_eq!(at(&body, "parallel_tool_calls"), Some(&Json::Bool(true)));
    assert_eq!(text(&body, "response_format/type"), Some("json_schema"));
    assert_eq!(text(&body, "response_format/json_schema/name"), Some("decision"));
    assert_eq!(
        at(&body, "response_format/json_schema/schema/required"),
        Some(&json(r#"["status"]"#))
    );
    assert_eq!(at(&body, "response_format/json_schema/strict"), Some(&Json::Bool(true)));
}

#[test]
fn glm_request_uses_tool_stream_without_openai_stream_options() {
    let body = chat_body(&sample_request(), &sample_config(OpenAiChatCompatibility::Glm))
        .expect("request should render");
    assert_eq!(at(&body, "tool_stream"), Some(&Json::Bool(true)));
    assert!(body.get("stream_options").is_none());
    assert!(body.get("parallel_tool_calls").is_none());
    assert_eq!(text(&body, "thinking/type"), Some("enabled"));
    assert_eq!(text(&body, "reasoning_effort"), Some("high"));
    assert!(at(&body, "response_format").expect("format").alike(&json(r#"{"type":"json_object"}"#)));
}

fn same_event(event: &ModelEvent, item: &str) -> bool {
    matches!(event, ModelEvent::ResponseItemCompleted { item: found } if found.alike(&json(item)))
}

#[test]
fn stream_state_normalizes_reasoning_text_tool_calls_and_usage() {
    let mut state = ChatStreamState::default();
    let deltas = state
        .consume(
            r#"{"choices":[{"delta":{"reasoning_content":"think ","content":"hello "},"finish_reason":null}]}"#,
        )
        .expect("first delta should parse");
    assert_eq!(deltas, vec![ModelEvent::OutputTextDelta { delta: "hello ".to_string() }]);
    state
        .consume(
            r#"{"choices":[{"delta":{"tool_calls":[{"index":0,"id":"call-7","function":{"name":"read_","arguments":"{\"pa"}}]},"finish_reason":null}]}"#,
        )
        .expect("first tool delta should parse");
    state
        .consume(
            r#"{"choices":[{"delta":{"reasoning_content":"carefully","content":"world","tool_calls":[{"index":0,"function":{"name":"file","arguments":"th\":\"x\"}"}}]},"finish_reason":"tool_calls"}]}"#,
        )
        .expect("terminal delta should parse");
    state
        .consume(
            r#"{"choices":[],"usage":{"prompt_tokens":12,"completion_tokens":5,"prompt_tokens_details":{"cached_tokens":3}}}"#,
        )
        .expect("usage delta should parse");

    let events = state.finish().expect("finished stream should normalize");
    assert_eq!(events.len(), 4);
    assert!(same_event(&events[0], r#"{"type":"reasoning","content":"think carefully"}"#));
    assert!(same_event(
        &events[1],
        r#"{"type":"message","role":"assistant","content":[{"type":"output_text","text":"hello world"}]}"#
    ));
    assert!(same_event(
        &events[2],
        r#"{"type":"function_call","call_id":"call-7","name":"read_file","arguments":"{\"path\":\"x\"}"}"#
    ));
    assert_eq!(
        events[3],
        ModelEvent::Completed {
            usage: TokenUsage {
                input_tokens: 12,
                output_tokens: 5,
                cached_input_tokens: 3,
                cache_write_input_tokens: 0,
            },
        }
    );
}

#[test]
fn output_limit_preserves_usage() {
    let mut state = ChatStreamState::default();
    let error = state
        .consume(
            r#"{"choices":[{"delta":{},"finish_reason":"length"}],"usage":{"prompt_tokens":20,"completion_tokens":8}}"#,
        )
        .expect_err("length finish should be recoverable");
    assert!(matches!(
        error,
        ModelError::IncompleteResponse {
            reason,
            usage: TokenUsage { input_tokens: 20, output_tokens: 8, .. }
        } if reason == "max_output_tokens"
    ));
}

#[test]
fn streams_sse_without_an_external_provider_request() {
    let config = sample_config(OpenAiChatCompatibility::Generic);
    let mut request = sample_request();
    request.input.clear();
    request.tools.clear();
    request.response_format = None;
    let metadata = chat_metadata(&request, &config);
    assert_eq!(metadata.provider.as_deref(), Some("test-provider"));
    assert_eq!(metadata.api.as_deref(), Some("open_ai_chat_completions"));
    assert_eq!(metadata.transport, ModelTransport::HttpSse);

    let mut state = ChatStreamState::default();
    let mut events = Vec::new();
    let mut finished = false;
    for data in [
        r#"{"choices":[{"delta":{"content":"hello"},"finish_reason":null}]}"#,
        r#"{"choices":[{"delta":{},"finish_reason":"stop"}]}"#,
        r#"{"choices":[],"usage":{"prompt_tokens":4,"completion_tokens":1}}"#,
        "[DONE]",
    ] {
        match state.receive(SseMessage::Data(data.to_string()), 30) {
            ChatStep::Go(more) => events.extend(more),
            ChatStep::Finish(more) => {
                events.extend(more);
                finished = true;
            }
            ChatStep::Fail(error) => panic!("stream should finish: {}", error.message()),
        }
    }
    assert!(finished);
    assert!(events.contains(&ModelEvent::OutputTextDelta { delta: "hello".to_string() }));
    assert!(events.contains(&ModelEvent::Completed {
        usage: TokenUsage {
            input_tokens: 4,
            output_tokens: 1,
            cached_input_tokens: 0,
            cache_write_input_tokens: 0,
        },
    }));
}

#[test]
fn an_unfinished_chat_stream_is_refused() {
    let mut state = ChatStreamState::default();
    state
        .consume(r#"{"choices":[{"delta":{"content":"half"},"finish_reason":null}]}"#)
        .expect("a delta");
    assert!(state.finish().is_err());
    assert!(matches!(state.receive(SseMessage::Ended, 30), ChatStep::Fail(_)));
    let mut state = ChatStreamState::default();
    assert!(state.consume("not json").is_err());
}

#[test]
fn chat_replays_arguments_as_objects() {
    assert_eq!(replayable_tool_arguments(r#"{"a":1}"#), r#"{"a":1}"#);
    assert_eq!(replayable_tool_arguments("not json"), "{}");
    assert_eq!(replayable_tool_arguments("[1]"), "{}");
    assert_eq!(tool_output_content(&Json::text("plain")), "plain");
    assert_eq!(tool_output_content(&json(r#"{"a":[1,null]}"#)), r#"{"a":[1,null]}"#);
}

#[test]
fn chat_refuses_hosted_tools() {
    let mut request = sample_request();
    request.hosted_tools = vec![HostedTool::WebSearch];
    let error = chat_body(&request, &sample_config(OpenAiChatCompatibility::Generic))
        .expect_err("hosted tools are not offered");
    assert!(error
        .message()
        .contains("provider \"test-provider\" does not support hosted tools through Chat Completions"));
}

fn provider(base_url: &str, key: &str) -> ProviderConfigFile {
    ProviderConfigFile {
        base_url: base_url.to_string(),
        api_key_env: key.to_string(),
        optional: false,
        organization: None,
        project: None,
        max_request_retries: None,
        request_timeout_seconds: None,
        stream_idle_timeout_seconds: None,
        reasoning_effort: None,
        store_responses: None,
        responses_websockets: None,
        prompt_cache_mode: None,
        chat_compatibility: OpenAiChatCompatibility::Generic,
    }
}

fn profile(
    provider: &str,
    api: ModelApi,
    model: &str,
    capabilities: Vec<ModelCapability>,
) -> ModelProfileFile {
    ModelProfileFile {
        provider: provider.to_string(),
        api,
        model: model.to_string(),
        context_window: 1_000_000,
        capabilities,
    }
}

fn deepseek() -> ProviderConfigFile {
    ProviderConfigFile {
        responses_websockets: Some(false),
        prompt_cache_mode: Some(OpenAiPromptCacheMode::Implicit),
        reasoning_effort: Some(OpenAiReasoningEffort::Medium),
        chat_compatibility: OpenAiChatCompatibility::Deepseek,
        ..provider("https://api.deepseek.com", "DEEPSEEK_API_KEY")
    }
}

fn two_providers() -> ModelConfigFile {
    ModelConfigFile {
        default_model: "deepseek-flash".to_string(),
        providers: vec![
            ("deepseek".to_string(), deepseek()),
            ("openai".to_string(), provider("https://api.openai.com/v1", "OPENAI_API_KEY")),
        ],
        models: vec![
            (
                "deepseek-flash".to_string(),
                profile(
                    "deepseek",
                    ModelApi::OpenAiResponses,
                    "deepseek-v4-flash",
                    vec![ModelCapability::HostedWebSearch],
                ),
            ),
            (
                "openai-main".to_string(),
                profile("openai", ModelApi::OpenAiResponses, "gpt-5.6-sol", Vec::new()),
            ),
            (
                "deepseek-no-search".to_string(),
                profile(
                    "deepseek",
                    ModelApi::OpenAiChatCompletions,
                    "deepseek-v4-pro",
                    Vec::new(),
                ),
            ),
        ],
    }
}

fn keys(prefix: &str, names: &[&str]) -> Vec<(String, String)> {
    names.iter().map(|name| (name.to_string(), format!("{prefix}{name}"))).collect()
}

#[test]
fn loads_multiple_providers_without_persisting_keys() {
    let names = ["DEEPSEEK_API_KEY", "OPENAI_API_KEY"];
    let configured =
        ConfiguredModels::from_config(&two_providers(), &keys("secret-for-", &names))
            .map_err(|error| error.message())
            .expect("provider config should load");

    assert_eq!(configured.default_model, "deepseek-flash");
    assert_eq!(configured.profiles.len(), 3);
    assert_eq!(configured.providers.len(), 2);
    assert_eq!(
        configured
            .profiles
            .iter()
            .find(|profile| profile.id == "deepseek-no-search")
            .map(|profile| profile.api),
        Some(ModelApi::OpenAiChatCompletions)
    );
    assert_eq!(
        configured
            .providers
            .iter()
            .find(|provider| provider.id == "deepseek")
            .map(|provider| provider.apis.as_slice()),
        Some([ModelApi::OpenAiResponses, ModelApi::OpenAiChatCompletions].as_slice())
    );
    assert!(configured
        .profiles
        .iter()
        .find(|profile| profile.id == "deepseek-flash")
        .is_some_and(|profile| profile.supports(ModelCapability::HostedWebSearch)));
    assert!(configured
        .profiles
        .iter()
        .find(|profile| profile.id == "openai-main")
        .is_some_and(|profile| !profile.supports(ModelCapability::HostedWebSearch)));
    assert!(configured.router.supports_hosted_tool("deepseek-flash", HostedTool::WebSearch));
    assert!(!configured.router.supports_hosted_tool("openai-main", HostedTool::WebSearch));
    assert!(!configured.router.supports_hosted_tool("deepseek-no-search", HostedTool::WebSearch));
    assert_eq!(configured.router.model_context_window("deepseek-flash"), Some(1_000_000));
    let shown = format!("{:?}{:?}", configured.profiles, configured.providers);
    assert!(!shown.contains("secret-for"));
    let mut route = configured
        .router
        .resolve_route_snapshot("deepseek-flash", None)
        .map_err(|error| error.message())
        .expect("route should resolve");
    assert_eq!(route.provider, "deepseek");
    assert_eq!(route.upstream_model, "deepseek-v4-flash");
    assert_eq!(route.context_window, 1_000_000);
    assert_eq!(route.reasoning_effort, Some(ReasoningEffort::Medium));
    assert!(route.capabilities.hosted_web_search);
    assert!(configured.router.validate_route_snapshot(&route).is_ok());
    let independently_loaded =
        ConfiguredModels::from_config(&two_providers(), &keys("different-secret-for-", &names))
            .map_err(|error| error.message())
            .expect("provider config should reload with a different key");
    let reloaded_route = independently_loaded
        .router
        .resolve_route_snapshot("deepseek-flash", None)
        .map_err(|error| error.message())
        .expect("reloaded route should resolve");
    assert_eq!(route.config_sha256, reloaded_route.config_sha256);
    route.context_window -= 1;
    assert!(configured.router.validate_route_snapshot(&route).is_err());
}

#[test]
fn missing_provider_key_fails_with_the_variable_name() {
    let file = ModelConfigFile {
        default_model: "main".to_string(),
        providers: vec![(
            "deepseek".to_string(),
            provider("https://api.deepseek.com", "DEEPSEEK_API_KEY"),
        )],
        models: vec![(
            "main".to_string(),
            profile("deepseek", ModelApi::OpenAiResponses, "deepseek-v4-flash", Vec::new()),
        )],
    };
    let error = ConfiguredModels::from_config(&file, &Vec::new())
        .err()
        .expect("missing key should fail");
    assert!(error.message().contains("DEEPSEEK_API_KEY"));
}

#[test]
fn unavailable_optional_provider_and_its_profiles_are_skipped() {
    let window = |profile: ModelProfileFile| ModelProfileFile { context_window: 100_000, ..profile };
    let file = ModelConfigFile {
        default_model: "local-main".to_string(),
        providers: vec![
            ("local".to_string(), provider("https://models.example.test", "LOCAL_API_KEY")),
            (
                "optional".to_string(),
                ProviderConfigFile {
                    optional: true,
                    ..provider("https://optional.example.test", "OPTIONAL_API_KEY")
                },
            ),
        ],
        models: vec![
            (
                "local-main".to_string(),
                window(profile("local", ModelApi::OpenAiResponses, "main", Vec::new())),
            ),
            (
                "optional-search".to_string(),
                window(profile(
                    "optional",
                    ModelApi::OpenAiResponses,
                    "search",
                    vec![ModelCapability::HostedWebSearch],
                )),
            ),
        ],
    };
    let available = vec![("LOCAL_API_KEY".to_string(), "available".to_string())];
    let configured = ConfiguredModels::from_config(&file, &available)
        .map_err(|error| error.message())
        .expect("optional provider should not block available profiles");
    assert_eq!(configured.default_model, "local-main");
    assert_eq!(configured.profiles.len(), 1);
    assert_eq!(configured.profiles[0].id, "local-main");
    assert_eq!(configured.providers.len(), 1);
    assert_eq!(configured.providers[0].id, "local");
}

#[test]
fn chat_completions_cannot_claim_hosted_web_search() {
    let file = ModelConfigFile {
        default_model: "main".to_string(),
        providers: vec![(
            "deepseek".to_string(),
            ProviderConfigFile {
                chat_compatibility: OpenAiChatCompatibility::Deepseek,
                ..provider("https://api.deepseek.com", "DEEPSEEK_API_KEY")
            },
        )],
        models: vec![(
            "main".to_string(),
            profile(
                "deepseek",
                ModelApi::OpenAiChatCompletions,
                "deepseek-v4-pro",
                vec![ModelCapability::HostedWebSearch],
            ),
        )],
    };
    let error = ConfiguredModels::from_config(&file, &keys("test-key", &["DEEPSEEK_API_KEY"]))
        .err()
        .expect("unsupported hosted search must fail closed");
    assert!(error.message().contains("cannot declare hosted_web_search"));
}

fn fast_research() -> ModelProfile {
    ModelProfile {
        id: "fast-research".to_string(),
        provider: "deepseek".to_string(),
        api: ModelApi::OpenAiResponses,
        model: "deepseek-v4-flash".to_string(),
        context_window: 1_000_000,
        capabilities: vec![ModelCapability::HostedWebSearch],
        default_reasoning_effort: None,
        config_sha256: String::new(),
    }
}

fn metadata_event() -> ModelEvent {
    ModelEvent::RequestMetadata {
        metadata: ModelRequestMetadata {
            provider: None,
            api: None,
            model_profile: None,
            upstream_model: None,
            transport: ModelTransport::HttpSse,
            prompt_cache_mode: PromptCacheMode::Implicit,
            prompt_cache_key: None,
            prompt_cache_breakpoint: false,
            used_previous_response_id: false,
            continuation_miss_reason: Some("test".to_string()),
            websocket_fallback_reason: None,
        },
    }
}

#[test]
fn router_rewrites_profile_and_annotates_metadata() {
    let router = ModelRouter::new(
        vec![fast_research()],
        &vec![ProfileClient {
            profile: "fast-research".to_string(),
            client: 0,
            hosts_search: false,
        }],
    )
    .map_err(|error| error.message())
    .expect("router should build");
    let mut request = plain_request("fast-research", Vec::new());
    request.tool_choice = ModelToolChoice::Never;
    let (place, routed) = router
        .route_request(request)
        .map_err(|error| error.message())
        .expect("route should resolve");
    assert_eq!(place, 0);
    assert_eq!(routed.model, "deepseek-v4-flash");
    let event = annotate_event(metadata_event(), &fast_research(), "fast-research");
    assert!(matches!(
        event,
        ModelEvent::RequestMetadata {
            metadata: ModelRequestMetadata {
                provider: Some(provider),
                api: Some(api),
                model_profile: Some(profile),
                upstream_model: Some(model),
                ..
            }
        } if provider == "deepseek"
            && api == "open_ai_responses"
            && profile == "fast-research"
            && model == "deepseek-v4-flash"
    ));
    assert!(router.route_request(plain_request("unknown", Vec::new())).is_err());
}

#[test]
fn a_profile_without_a_client_is_refused() {
    let refused = ModelRouter::new(vec![fast_research()], &Vec::new());
    assert!(refused.is_err());
    let twice = ModelRouter::new(
        vec![fast_research(), fast_research()],
        &vec![ProfileClient {
            profile: "fast-research".to_string(),
            client: 0,
            hosts_search: false,
        }],
    );
    assert!(twice.is_err());
}

#[test]
fn scripted_answers_come_in_order() {
    let mut model = ScriptedModelClient::new(vec![vec![ModelEvent::OutputTextDelta {
        delta: "one".to_string(),
    }]]);
    model.push_response(Vec::new());
    assert_eq!(
        model.stream(plain_request("a", Vec::new())).expect("scripted"),
        vec![ModelEvent::OutputTextDelta { delta: "one".to_string() }]
    );
    assert_eq!(model.stream(plain_request("b", Vec::new())).expect("scripted"), Vec::new());
    assert!(model.stream(plain_request("c", Vec::new())).is_err());
    assert_eq!(model.requests().len(), 3);
    assert_eq!(model.requests()[1].model, "b");
}

#[test]
fn endpoints_are_derived_from_base_urls() {
    assert_eq!(
        responses_endpoint("https://api.openai.com/v1").expect("base"),
        "https://api.openai.com/v1/responses"
    );
    assert!(responses_endpoint("not a url").is_err());
    let url = parse_url("https://user:pw@host.test:8443/p?q=1#f").expect("url");
    assert_eq!(url.scheme, "https");
    assert_eq!(url.username, "user");
    assert_eq!(url.password.as_deref(), Some("pw"));
    assert_eq!(url.host.as_deref(), Some("host.test"));
    assert_eq!(url.path, "/p");
    assert_eq!(url.query.as_deref(), Some("q=1"));
    assert_eq!(url.fragment.as_deref(), Some("f"));
    let http = parse_url("http://host.test/v1/responses").expect("url");
    assert_eq!(websocket_endpoint(&http).expect("socket"), "ws://host.test/v1/responses");
    let https = parse_url("https://host.test/v1/responses").expect("url");
    assert_eq!(websocket_endpoint(&https).expect("socket"), "wss://host.test/v1/responses");
    let ftp = parse_url("ftp://host.test/").expect("url");
    assert!(websocket_endpoint(&ftp).is_err());
    assert!(normalize_base_url("https://user@host.test/v1").is_err());
    assert!(normalize_base_url("https://host.test/v1?x=1").is_err());
    assert!(normalize_base_url("https://host.test/v1/").expect("base").starts_with("https://host.test/v1"));
}

#[test]
fn retries_wait_longer_and_longer() {
    assert!(request_retry_delay(1, Some(0)) <= request_retry_delay(2, Some(0)));
    assert!(matches!(
        attempt_step(AttemptOutcome::Answered(200), 0, 2, 30),
        AttemptStep::Accept
    ));
    assert!(matches!(
        attempt_step(AttemptOutcome::Answered(503), 0, 2, 30),
        AttemptStep::Retry(_) | AttemptStep::ReadError(503)
    ));
    assert!(matches!(
        attempt_step(AttemptOutcome::Failed("refused".to_string()), 2, 2, 30),
        AttemptStep::Fail(ModelError::Transport(_))
    ));
    assert!(matches!(
        attempt_step(AttemptOutcome::TimedOut, 5, 2, 30),
        AttemptStep::Fail(error) if error.message().contains("30")
    ));
    assert!(matches!(
        error_step(400, ErrorBody::Read("bad".to_string()), 0, 5),
        AttemptStep::Fail(ModelError::Http { status: 400, message }) if message.contains("bad")
    ));
}

#[test]
fn sse_parts_are_told_one_by_one() {
    assert!(matches!(
        sse_step(
            SseMessage::Data(
                r#"{"type":"response.output_text.delta","delta":"hi"}"#.to_string()
            ),
            9
        ),
        SseStep::Tell(ModelEvent::OutputTextDelta { delta }) if delta == "hi"
    ));
    assert!(matches!(sse_step(SseMessage::Data("[DONE]".to_string()), 9), SseStep::Wait | SseStep::End));
    assert!(matches!(sse_step(SseMessage::Ended, 9), SseStep::End));
    assert!(matches!(
        sse_step(SseMessage::Idle, 9),
        SseStep::Fail { error, .. } if error.message().contains('9')
    ));
    assert!(matches!(
        sse_step(SseMessage::Broken("cut".to_string()), 9),
        SseStep::Fail { error, .. } if error.message().contains("cut")
    ));
}

#[test]
fn a_session_that_fell_back_stays_with_http() {
    let config = test_config();
    let mut request = plain_request("m", Vec::new());
    let mut fallbacks: TimedTable<()> = TimedTable::new();
    assert!(matches!(
        choose_transport(&request, &config, &mut fallbacks, 1),
        TransportChoice::Http(None)
    ));
    request.transport_session_key = Some("key".to_string());
    assert!(matches!(
        choose_transport(&request, &config, &mut fallbacks, 1),
        TransportChoice::Socket(key) if key == "key"
    ));
    let reason = fall_back(
        &mut fallbacks,
        "key".to_string(),
        &ModelError::Transport("no socket".to_string()),
        2,
    );
    assert!(reason.contains("no socket"));
    assert!(matches!(
        choose_transport(&request, &config, &mut fallbacks, 3),
        TransportChoice::Http(Some(_))
    ));
    assert!(uses_fallback(&mut fallbacks, "key", 3));
    assert!(!uses_fallback(&mut fallbacks, "key", 3 + SOCKET_FALLBACK_TTL));
}

#[test]
fn stored_sessions_are_bounded_and_taken_once() {
    let mut table: TimedTable<u32> = TimedTable::new();
    for i in 0..(MAX_SOCKET_SESSIONS as u32 + 5) {
        store_session(&mut table, format!("k{i}"), i, i as u64);
    }
    assert!(!table.contains("k0"));
    let last = format!("k{}", MAX_SOCKET_SESSIONS as u32 + 4);
    assert_eq!(table.take(&last), Some(MAX_SOCKET_SESSIONS as u32 + 4));
    assert_eq!(table.take(&last), None);
}

#[test]
fn headers_hold_what_may_be_sent() {
    assert!(is_header_value("Bearer key\t"));
    assert!(!is_header_value("line\nbreak"));
    assert!(!is_header_value("\u{7f}"));
    let headers = test_config().headers().expect("headers");
    assert_eq!(headers, vec![("user-agent".to_string(), "papermachine/0.1".to_string())]);
    let mut blank = test_config();
    blank.api_key = " ".to_string();
    assert!(blank.headers().is_err());
    let socket = socket_headers(&test_config(), "session").expect("headers");
    assert!(socket.contains(&("authorization".to_string(), "Bearer test-key".to_string())));
    assert!(socket.contains(&("x-client-request-id".to_string(), "session".to_string())));
}

#[test]
fn identifiers_and_times_are_checked() {
    assert!(validate_identifier("provider", "open-ai_1.x").is_ok());
    assert!(validate_identifier("provider", "").is_err());
    assert!(validate_identifier("provider", "a b").is_err());
    assert_eq!(positive_duration("t", None, 5).expect("default"), 5);
    assert_eq!(positive_duration("t", Some(9), 5).expect("given"), 9);
    assert!(positive_duration("t", Some(0), 5).is_err());
}

#[test]
fn sanitizing_removes_what_providers_number() {
    let item = json(r#"{"id":"x","type":"reasoning","status":"completed","summary":[]}"#);
    let once = sanitize_response_item(&item);
    assert!(once.get("id").is_none());
    assert_eq!(sanitize_response_item(&once), once);
}

#[test]
fn digests_are_sha256() {
    assert_eq!(
        hash_route_config(&json("{}")),
        "44136fa355b3678a1146ad16f7e8649e94fb4fc21fe77e8310c060f61caaff8a"
    );
}

#[test]
fn json_is_read_and_written() {
    let value = json(r#"{"b":[1,-2,0.5,true,null],"a":"x\"y"}"#);
    assert_eq!(value.render(), r#"{"a":"x\"y","b":[1,-2,0.5,true,null]}"#);
    assert!(Json::parse("{").is_err());
}

#[test]
fn decimals_are_kept_as_they_were_read() {
    for numeral in
        ["1.5", "-0.0", "1e-7", "0.1", "9007199254740993.0", "4.35e-300", "123456789012345680.5"]
    {
        let number: serde_json::Value = serde_json::from_str(numeral).expect("a number");
        assert_eq!(json(numeral).render(), number.to_string());
        let list = json(&format!("[{numeral}]"));
        assert_eq!(list.clone().render(), format!("[{number}]"));
    }
    assert_eq!(json("1.50").render(), "1.5");
}

#[test]
fn configured_models_stand_in_order() {
    let mut file = two_providers();
    file.providers.reverse();
    let names = ["DEEPSEEK_API_KEY", "OPENAI_API_KEY"];
    let configured = ConfiguredModels::from_config(&file, &keys("k", &names))
        .map_err(|error| error.message())
        .expect("provider config should load");
    let profiles: Vec<&str> = configured.profiles.iter().map(|p| p.id.as_str()).collect();
    assert_eq!(profiles, vec!["deepseek-flash", "deepseek-no-search", "openai-main"]);
    let providers: Vec<&str> = configured.providers.iter().map(|p| p.id.as_str()).collect();
    assert_eq!(providers, vec!["deepseek", "openai"]);
    assert_eq!(configured.providers[1].apis, vec![ModelApi::OpenAiResponses]);
    file.models.truncate(1);
    let configured = ConfiguredModels::from_config(&file, &keys("k", &names))
        .map_err(|error| error.message())
        .expect("provider config should load");
    assert_eq!(configured.providers.len(), 1);
    assert_eq!(configured.providers[0].id, "deepseek");
    assert_eq!(configured.providers[0].apis, vec![ModelApi::OpenAiResponses]);
}
