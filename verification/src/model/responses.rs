//! The Responses API: the body of a request, and the events of a response.

use crate::agent::history::{item_call, tool_call_from_response_item};
use crate::json::{
    field, field2, field3, group_json, json_maybe, json_parsed, json_text, lemma_without_settles,
    member_views, number_in, put, read_number, read_text, remove_member, text_field, text_in, views,
    without, Json, JsonView,
};
use crate::model::error::{ModelError, ModelErrorView};
use crate::model::http::{account_headers, client_fault, client_headers, header_views};
use crate::protocol::model::{
    no_usage, FormatView, HostedTool, ItemView, MessageRole, ModelEvent, ModelEventView,
    ModelInputItem, ModelRequest, ModelResponseFormat, PromptCacheMode, ReasoningEffort,
    RequestView, TokenUsage, ToolView, WebSearchContextSize,
};
use crate::text::{is_blank, maybe, same, trim, trimmed};
use vstd::prelude::*;

verus! {

broadcast use group_json;

/// The effort that a provider is configured with.
#[derive(Clone, Copy, Debug, PartialEq, Eq, Structural)]
pub enum OpenAiReasoningEffort {
    Off,
    Low,
    Medium,
    High,
    Xhigh,
    Max,
}

impl OpenAiReasoningEffort {
    pub open spec fn text(self) -> Seq<char> {
        match self {
            OpenAiReasoningEffort::Off => "none"@,
            OpenAiReasoningEffort::Low => "low"@,
            OpenAiReasoningEffort::Medium => "medium"@,
            OpenAiReasoningEffort::High => "high"@,
            OpenAiReasoningEffort::Xhigh => "xhigh"@,
            OpenAiReasoningEffort::Max => "max"@,
        }
    }

    pub fn as_str(self) -> (r: &'static str)
        ensures
            r@ == self.text(),
    {
        match self {
            OpenAiReasoningEffort::Off => "none",
            OpenAiReasoningEffort::Low => "low",
            OpenAiReasoningEffort::Medium => "medium",
            OpenAiReasoningEffort::High => "high",
            OpenAiReasoningEffort::Xhigh => "xhigh",
            OpenAiReasoningEffort::Max => "max",
        }
    }
}

/// How a provider is asked to cache prompts.
#[derive(Clone, Copy, Debug, PartialEq, Eq, Structural)]
pub enum OpenAiPromptCacheMode {
    Auto,
    Implicit,
    Explicit,
}

impl OpenAiPromptCacheMode {
    pub open spec fn text(self) -> Seq<char> {
        match self {
            OpenAiPromptCacheMode::Auto => "auto"@,
            OpenAiPromptCacheMode::Implicit => "implicit"@,
            OpenAiPromptCacheMode::Explicit => "explicit"@,
        }
    }

    pub fn as_str(self) -> (r: &'static str)
        ensures
            r@ == self.text(),
    {
        match self {
            OpenAiPromptCacheMode::Auto => "auto",
            OpenAiPromptCacheMode::Implicit => "implicit",
            OpenAiPromptCacheMode::Explicit => "explicit",
        }
    }
}

impl Default for OpenAiPromptCacheMode {
    fn default() -> (r: Self)
        ensures
            r == OpenAiPromptCacheMode::Auto,
    {
        OpenAiPromptCacheMode::Auto
    }
}

/// The effort that a configured one stands for.
pub open spec fn protocol_effort(value: OpenAiReasoningEffort) -> ReasoningEffort {
    match value {
        OpenAiReasoningEffort::Off => ReasoningEffort::Off,
        OpenAiReasoningEffort::Low => ReasoningEffort::Low,
        OpenAiReasoningEffort::Medium => ReasoningEffort::Medium,
        OpenAiReasoningEffort::High => ReasoningEffort::High,
        OpenAiReasoningEffort::Xhigh => ReasoningEffort::Xhigh,
        OpenAiReasoningEffort::Max => ReasoningEffort::Max,
    }
}

/// The effort that a configured one stands for.
pub fn protocol_reasoning_effort(value: OpenAiReasoningEffort) -> (r: ReasoningEffort)
    ensures
        r == protocol_effort(value),
{
    match value {
        OpenAiReasoningEffort::Off => ReasoningEffort::Off,
        OpenAiReasoningEffort::Low => ReasoningEffort::Low,
        OpenAiReasoningEffort::Medium => ReasoningEffort::Medium,
        OpenAiReasoningEffort::High => ReasoningEffort::High,
        OpenAiReasoningEffort::Xhigh => ReasoningEffort::Xhigh,
        OpenAiReasoningEffort::Max => ReasoningEffort::Max,
    }
}

/// How a provider's Responses API is used. It has no `Debug` form, which would show the key.
#[derive(PartialEq, Eq)]
pub struct OpenAiResponsesConfig {
    pub provider_id: String,
    pub endpoint: String,
    pub api_key: String,
    pub organization: Option<String>,
    pub project: Option<String>,
    pub max_request_retries: u32,
    pub request_timeout_seconds: u64,
    pub stream_idle_timeout_seconds: u64,
    pub reasoning_effort: Option<OpenAiReasoningEffort>,
    pub store_responses: bool,
    pub responses_websockets: bool,
    pub hosted_web_search: bool,
    pub prompt_cache_mode: OpenAiPromptCacheMode,
}

/// What is said of a blank key.
pub open spec fn blank_responses_key() -> Seq<char> {
    "OpenAI API key must not be empty"@
}

impl OpenAiResponsesConfig {
    /// Makes the headers of every request.
    pub fn headers(&self) -> (r: Result<Vec<(String, String)>, ModelError>)
        ensures
            match r {
                Ok(headers) => client_fault(
                    blank_responses_key(),
                    self.api_key@,
                    maybe(self.organization),
                    maybe(self.project),
                ) is None && header_views(headers@) == account_headers(
                    maybe(self.organization),
                    maybe(self.project),
                ),
                Err(e) => client_fault(
                    blank_responses_key(),
                    self.api_key@,
                    maybe(self.organization),
                    maybe(self.project),
                ) matches Some(fault) && e@ == ModelErrorView::Configuration(fault),
            },
    {
        client_headers(
            "OpenAI API key must not be empty",
            self.api_key.as_str(),
            &self.organization,
            &self.project,
        )
    }
}

/// An object with one member.
pub open spec fn one(key: Seq<char>, value: JsonView) -> JsonView {
    JsonView::Object(seq![(key, value)])
}

/// Writes an object with one member.
pub fn one_json(key: &str, value: Json) -> (r: Json)
    ensures
        r@ == one(key@, value@),
{
    let mut o: Vec<(String, Json)> = Vec::new();
    put(&mut o, key, value);
    assert(member_views(o@) =~= seq![(key@, value@)]);
    Json::Object(o)
}

/// An array with one item.
pub open spec fn alone(item: JsonView) -> JsonView {
    JsonView::Array(seq![item])
}

fn alone_json(item: Json) -> (r: Json)
    ensures
        r@ == alone(item@),
{
    let mut items: Vec<Json> = Vec::new();
    let ghost value = item@;
    items.push(item);
    assert(views(items@) =~= seq![value]);
    Json::Array(items)
}

/// A piece of text in a message.
pub open spec fn text_block(kind: Seq<char>, text: Seq<char>) -> JsonView {
    JsonView::Object(seq![("text"@, JsonView::Text(text)), ("type"@, JsonView::Text(kind))])
}

fn text_block_json(kind: &str, text: &str) -> (r: Json)
    ensures
        r@ == text_block(kind@, text@),
{
    let mut o: Vec<(String, Json)> = Vec::new();
    put(&mut o, "text", Json::text(text));
    put(&mut o, "type", Json::text(kind));
    assert(member_views(o@) =~= text_block(kind@, text@)->Object_0);
    Json::Object(o)
}

/// The mark up to which a prompt is cached.
pub open spec fn breakpoint() -> JsonView {
    one("mode"@, JsonView::Text("explicit"@))
}

/// A piece of text up to which the prompt is cached.
pub open spec fn marked_block(text: Seq<char>) -> JsonView {
    JsonView::Object(
        seq![
            ("prompt_cache_breakpoint"@, breakpoint()),
            ("text"@, JsonView::Text(text)),
            ("type"@, JsonView::Text("input_text"@)),
        ],
    )
}

fn marked_block_json(text: &str) -> (r: Json)
    ensures
        r@ == marked_block(text@),
{
    let mut o: Vec<(String, Json)> = Vec::new();
    put(&mut o, "prompt_cache_breakpoint", one_json("mode", Json::text("explicit")));
    put(&mut o, "text", Json::text(text));
    put(&mut o, "type", Json::text("input_text"));
    assert(member_views(o@) =~= marked_block(text@)->Object_0);
    Json::Object(o)
}

/// A message of one piece.
pub open spec fn message_of(role: Seq<char>, block: JsonView) -> JsonView {
    JsonView::Object(seq![("content"@, alone(block)), ("role"@, JsonView::Text(role))])
}

fn message_json(role: &str, block: Json) -> (r: Json)
    ensures
        r@ == message_of(role@, block@),
{
    let ghost b = block@;
    let mut o: Vec<(String, Json)> = Vec::new();
    put(&mut o, "content", alone_json(block));
    put(&mut o, "role", Json::text(role));
    assert(member_views(o@) =~= message_of(role@, b)->Object_0);
    Json::Object(o)
}

/// An item of the history, as the API takes it.
pub open spec fn input_item(item: ItemView) -> JsonView {
    match item {
        ItemView::Message { role, content } => match role {
            MessageRole::User => message_of("user"@, text_block("input_text"@, content)),
            MessageRole::Developer => message_of("developer"@, text_block("input_text"@, content)),
            MessageRole::Assistant => message_of("assistant"@, text_block("output_text"@, content)),
        },
        ItemView::FunctionCall { call_id, name, arguments } => JsonView::Object(
            seq![
                ("arguments"@, JsonView::Text(arguments)),
                ("call_id"@, JsonView::Text(call_id)),
                ("name"@, JsonView::Text(name)),
                ("type"@, JsonView::Text("function_call"@)),
            ],
        ),
        ItemView::FunctionCallOutput { call_id, output } => JsonView::Object(
            seq![
                ("call_id"@, JsonView::Text(call_id)),
                ("output"@, JsonView::Text(json_text(output))),
                ("type"@, JsonView::Text("function_call_output"@)),
            ],
        ),
        ItemView::ResponseItem { item } => item,
    }
}

/// Writes an item of the history.
pub fn model_input_json(item: &ModelInputItem) -> (r: Json)
    ensures
        r@ == input_item(item@),
{
    match item {
        ModelInputItem::Message { role, content } => match role {
            MessageRole::User => message_json(
                "user",
                text_block_json("input_text", content.as_str()),
            ),
            MessageRole::Developer => message_json(
                "developer",
                text_block_json("input_text", content.as_str()),
            ),
            MessageRole::Assistant => message_json(
                "assistant",
                text_block_json("output_text", content.as_str()),
            ),
        },
        ModelInputItem::FunctionCall { call_id, name, arguments } => {
            let mut o: Vec<(String, Json)> = Vec::new();
            put(&mut o, "arguments", Json::text(arguments.as_str()));
            put(&mut o, "call_id", Json::text(call_id.as_str()));
            put(&mut o, "name", Json::text(name.as_str()));
            put(&mut o, "type", Json::text("function_call"));
            assert(member_views(o@) =~= input_item(item@)->Object_0);
            Json::Object(o)
        },
        ModelInputItem::FunctionCallOutput { call_id, output } => {
            let mut o: Vec<(String, Json)> = Vec::new();
            put(&mut o, "call_id", Json::text(call_id.as_str()));
            put(&mut o, "output", Json::text(output.render().as_str()));
            put(&mut o, "type", Json::text("function_call_output"));
            assert(member_views(o@) =~= input_item(item@)->Object_0);
            Json::Object(o)
        },
        ModelInputItem::ResponseItem { item } => item.clone(),
    }
}

/// A tool, as the API takes it.
pub open spec fn function_tool(tool: ToolView) -> JsonView {
    JsonView::Object(
        seq![
            ("description"@, JsonView::Text(tool.description)),
            ("name"@, JsonView::Text(tool.name)),
            ("parameters"@, tool.input_schema),
            ("strict"@, JsonView::Bool(false)),
            ("type"@, JsonView::Text("function"@)),
        ],
    )
}

/// Hosted web search, as the API takes it.
pub open spec fn search_tool(size: Option<WebSearchContextSize>) -> JsonView {
    match size {
        Some(size) => JsonView::Object(
            seq![
                ("search_context_size"@, JsonView::Text(size.text())),
                ("type"@, JsonView::Text("web_search"@)),
            ],
        ),
        None => one("type"@, JsonView::Text("web_search"@)),
    }
}

/// The tools of a request: those of the registry, then those that the provider hosts.
pub open spec fn offered_tools(request: RequestView) -> Seq<JsonView> {
    request.tools.map_values(|t: ToolView| function_tool(t)) + request.hosted_tools.map_values(
        |h: HostedTool| search_tool(request.web_search_context_size),
    )
}

fn tools_json(request: &ModelRequest) -> (r: Vec<Json>)
    ensures
        views(r@) == offered_tools(request@),
{
    let ghost local = request@.tools.map_values(|t: ToolView| function_tool(t));
    let mut r: Vec<Json> = Vec::new();
    let mut i: usize = 0;
    assert(views(r@) =~= local.take(0));
    while i < request.tools.len()
        invariant
            i <= request.tools.len(),
            local == request@.tools.map_values(|t: ToolView| function_tool(t)),
            views(r@) == local.take(i as int),
        decreases request.tools.len() - i,
    {
        let tool = &request.tools[i];
        assert(request@.tools[i as int] == tool@);
        let mut o: Vec<(String, Json)> = Vec::new();
        put(&mut o, "description", Json::text(tool.description.as_str()));
        put(&mut o, "name", Json::text(tool.name.as_str()));
        put(&mut o, "parameters", tool.input_schema.clone());
        put(&mut o, "strict", Json::Bool(false));
        put(&mut o, "type", Json::text("function"));
        assert(member_views(o@) =~= function_tool(tool@)->Object_0);
        let item = Json::Object(o);
        r.push(item);
        assert(views(r@) =~= local.take(i + 1));
        i = i + 1;
    }
    assert(views(r@) =~= local);
    let ghost hosted = request@.hosted_tools.map_values(
        |h: HostedTool| search_tool(request@.web_search_context_size),
    );
    let mut k: usize = 0;
    assert(local + hosted.take(0) =~= local);
    while k < request.hosted_tools.len()
        invariant
            k <= request.hosted_tools.len(),
            hosted == request@.hosted_tools.map_values(
                |h: HostedTool| search_tool(request@.web_search_context_size),
            ),
            views(r@) == local + hosted.take(k as int),
        decreases request.hosted_tools.len() - k,
    {
        let item = match request.web_search_context_size {
            Some(size) => {
                let mut o: Vec<(String, Json)> = Vec::new();
                put(&mut o, "search_context_size", Json::text(size.as_str()));
                put(&mut o, "type", Json::text("web_search"));
                assert(member_views(o@) =~= search_tool(Some(size))->Object_0);
                Json::Object(o)
            },
            None => one_json("type", Json::text("web_search")),
        };
        r.push(item);
        assert(views(r@) =~= local + hosted.take(k + 1));
        k = k + 1;
    }
    assert(hosted.take(hosted.len() as int) =~= hosted);
    r
}

/// The instructions that open an explicitly cached prompt.
pub open spec fn stable_instructions(instructions: Seq<char>) -> Seq<char> {
    if trimmed(instructions).len() == 0 {
        "Follow the user's request."@
    } else {
        instructions
    }
}

/// The input of a request. Under explicit caching the instructions open it, marked.
pub open spec fn request_input(request: RequestView, mode: PromptCacheMode) -> Seq<JsonView> {
    let items = request.input.map_values(|i: ItemView| input_item(i));
    match mode {
        PromptCacheMode::Implicit => items,
        PromptCacheMode::Explicit => seq![
            message_of("developer"@, marked_block(stable_instructions(request.instructions))),
        ] + items,
    }
}

fn input_json(request: &ModelRequest, mode: PromptCacheMode) -> (r: Vec<Json>)
    ensures
        views(r@) == request_input(request@, mode),
{
    let ghost items = request@.input.map_values(|i: ItemView| input_item(i));
    let ghost opening = match mode {
        PromptCacheMode::Implicit => Seq::<JsonView>::empty(),
        PromptCacheMode::Explicit => seq![
            message_of("developer"@, marked_block(stable_instructions(request@.instructions))),
        ],
    };
    let mut r: Vec<Json> = Vec::new();
    assert(views(r@) =~= Seq::<JsonView>::empty());
    match mode {
        PromptCacheMode::Implicit => {},
        PromptCacheMode::Explicit => {
            let stable = if is_blank(request.instructions.as_str()) {
                "Follow the user's request."
            } else {
                request.instructions.as_str()
            };
            r.push(message_json("developer", marked_block_json(stable)));
        },
    }
    assert(views(r@) =~= opening);
    let mut i: usize = 0;
    assert(opening + items.take(0) =~= opening);
    while i < request.input.len()
        invariant
            i <= request.input.len(),
            items == request@.input.map_values(|i: ItemView| input_item(i)),
            views(r@) == opening + items.take(i as int),
        decreases request.input.len() - i,
    {
        let item = model_input_json(&request.input[i]);
        r.push(item);
        assert(views(r@) =~= opening + items.take(i + 1));
        i = i + 1;
    }
    assert(items.take(items.len() as int) =~= items);
    assert(opening + items =~= request_input(request@, mode));
    r
}

/// A member, if there is one.
pub open spec fn member_if(key: Seq<char>, value: Option<JsonView>) -> Seq<(Seq<char>, JsonView)> {
    match value {
        Some(v) => seq![(key, v)],
        None => Seq::empty(),
    }
}

/// Appends a member, if there is one.
pub fn put_if(members: &mut Vec<(String, Json)>, key: &str, value: Option<Json>)
    ensures
        member_views(final(members)@) == member_views(old(members)@) + member_if(
            key@,
            match value {
                Some(v) => Some(v@),
                None => None,
            },
        ),
{
    match value {
        Some(v) => {
            let ghost before = member_views(members@);
            put(members, key, v);
            assert(member_views(members@) =~= before + seq![(key@, v@)]);
        },
        None => {
            assert(member_views(members@) + Seq::<(Seq<char>, JsonView)>::empty() =~= member_views(
                members@,
            ));
        },
    }
}

/// The effort of a request: its own, or the configured one.
pub open spec fn effective_effort(
    request: RequestView,
    configured: Option<OpenAiReasoningEffort>,
) -> Option<Seq<char>> {
    match request.reasoning_effort {
        Some(e) => Some(e.text()),
        None => match configured {
            Some(e) => Some(e.text()),
            None => None,
        },
    }
}

/// The form of a response, as the API takes it.
pub open spec fn text_format(format: FormatView) -> JsonView {
    one(
        "format"@,
        JsonView::Object(
            seq![
                ("name"@, JsonView::Text(format.name)),
                ("schema"@, format.schema),
                ("strict"@, JsonView::Bool(format.strict)),
                ("type"@, JsonView::Text("json_schema"@)),
            ],
        ),
    )
}

/// The members of a request's body up to those on the choice of tools.
pub open spec fn body_head(request: RequestView, mode: PromptCacheMode) -> Seq<
    (Seq<char>, JsonView),
> {
    seq![
        ("input"@, JsonView::Array(request_input(request, mode))),
        (
            "instructions"@,
            JsonView::Text(
                match mode {
                    PromptCacheMode::Implicit => request.instructions,
                    PromptCacheMode::Explicit => Seq::empty(),
                },
            ),
        ),
        ("model"@, JsonView::Text(request.model)),
        ("parallel_tool_calls"@, JsonView::Bool(request.parallel_tool_calls)),
    ]
}

/// The members of a request's body that only some requests have.
pub open spec fn body_options(
    request: RequestView,
    effort: Option<OpenAiReasoningEffort>,
    mode: PromptCacheMode,
) -> Seq<(Seq<char>, JsonView)> {
    member_if(
        "prompt_cache_key"@,
        match request.prompt_cache {
            Some(cache) => Some(JsonView::Text(cache.0)),
            None => None,
        },
    ) + member_if(
        "prompt_cache_options"@,
        if mode == PromptCacheMode::Explicit {
            Some(breakpoint())
        } else {
            None
        },
    ) + member_if(
        "reasoning"@,
        match effective_effort(request, effort) {
            Some(e) => Some(one("effort"@, JsonView::Text(e))),
            None => None,
        },
    )
}

/// The members of a request's body behind those.
pub open spec fn body_tail(request: RequestView, store: bool) -> Seq<(Seq<char>, JsonView)> {
    seq![("store"@, JsonView::Bool(store)), ("stream"@, JsonView::Bool(true))] + member_if(
        "text"@,
        match request.response_format {
            Some(format) => Some(text_format(format)),
            None => None,
        },
    ) + seq![
        ("tool_choice"@, JsonView::Text(request.tool_choice.text())),
        ("tools"@, JsonView::Array(offered_tools(request))),
    ]
}

/// The body of a request.
pub open spec fn body_members(
    request: RequestView,
    effort: Option<OpenAiReasoningEffort>,
    store: bool,
    mode: PromptCacheMode,
) -> Seq<(Seq<char>, JsonView)> {
    body_head(request, mode) + body_options(request, effort, mode) + body_tail(request, store)
}

fn put_body_head(o: &mut Vec<(String, Json)>, request: &ModelRequest, mode: PromptCacheMode)
    ensures
        member_views(final(o)@) == member_views(old(o)@) + body_head(request@, mode),
{
    let ghost before = member_views(o@);
    put(o, "input", Json::Array(input_json(request, mode)));
    put(
        o,
        "instructions",
        match mode {
            PromptCacheMode::Implicit => Json::text(request.instructions.as_str()),
            PromptCacheMode::Explicit => Json::Text(String::new()),
        },
    );
    put(o, "model", Json::text(request.model.as_str()));
    put(o, "parallel_tool_calls", Json::Bool(request.parallel_tool_calls));
    assert(member_views(o@) =~= before + body_head(request@, mode));
}

fn put_body_options(
    o: &mut Vec<(String, Json)>,
    request: &ModelRequest,
    effort: Option<OpenAiReasoningEffort>,
    mode: PromptCacheMode,
)
    ensures
        member_views(final(o)@) == member_views(old(o)@) + body_options(request@, effort, mode),
{
    let ghost before = member_views(o@);
    put_if(
        o,
        "prompt_cache_key",
        match &request.prompt_cache {
            Some(cache) => Some(Json::text(cache.key.as_str())),
            None => None,
        },
    );
    put_if(
        o,
        "prompt_cache_options",
        match mode {
            PromptCacheMode::Implicit => None,
            PromptCacheMode::Explicit => Some(one_json("mode", Json::text("explicit"))),
        },
    );
    let named = match request.reasoning_effort {
        Some(e) => Some(e.as_str()),
        None => match effort {
            Some(e) => Some(e.as_str()),
            None => None,
        },
    };
    put_if(
        o,
        "reasoning",
        match named {
            Some(e) => Some(one_json("effort", Json::text(e))),
            None => None,
        },
    );
    assert(member_views(o@) =~= before + body_options(request@, effort, mode));
}

fn format_json(format: &ModelResponseFormat) -> (r: Json)
    ensures
        r@ == text_format(format@),
{
    let mut f: Vec<(String, Json)> = Vec::new();
    put(&mut f, "name", Json::text(format.name.as_str()));
    put(&mut f, "schema", format.schema.clone());
    put(&mut f, "strict", Json::Bool(format.strict));
    put(&mut f, "type", Json::text("json_schema"));
    assert(member_views(f@) =~= seq![
        ("name"@, JsonView::Text(format@.name)),
        ("schema"@, format@.schema),
        ("strict"@, JsonView::Bool(format@.strict)),
        ("type"@, JsonView::Text("json_schema"@)),
    ]);
    one_json("format", Json::Object(f))
}

fn put_body_tail(o: &mut Vec<(String, Json)>, request: &ModelRequest, store: bool)
    ensures
        member_views(final(o)@) == member_views(old(o)@) + body_tail(request@, store),
{
    let ghost before = member_views(o@);
    put(o, "store", Json::Bool(store));
    put(o, "stream", Json::Bool(true));
    put_if(
        o,
        "text",
        match &request.response_format {
            Some(format) => Some(format_json(format)),
            None => None,
        },
    );
    put(o, "tool_choice", Json::text(request.tool_choice.as_str()));
    put(o, "tools", Json::Array(tools_json(request)));
    assert(member_views(o@) =~= before + body_tail(request@, store));
}

/// Writes the body of a request.
pub fn request_body(
    request: &ModelRequest,
    config: &OpenAiResponsesConfig,
    prompt_cache_mode: PromptCacheMode,
) -> (r: Json)
    ensures
        r@ == JsonView::Object(
            body_members(
                request@,
                config.reasoning_effort,
                config.store_responses,
                prompt_cache_mode,
            ),
        ),
{
    let mut o: Vec<(String, Json)> = Vec::new();
    assert(member_views(o@) =~= Seq::<(Seq<char>, JsonView)>::empty());
    put_body_head(&mut o, request, prompt_cache_mode);
    assert(member_views(o@) =~= body_head(request@, prompt_cache_mode));
    put_body_options(&mut o, request, config.reasoning_effort, prompt_cache_mode);
    put_body_tail(&mut o, request, config.store_responses);
    Json::Object(o)
}

/// A response item without what names it at the provider.
pub open spec fn sanitized(item: JsonView) -> JsonView {
    match item {
        JsonView::Object(members) => JsonView::Object(
            without(without(members, "id"@), "status"@),
        ),
        other => other,
    }
}

/// Removes what names a response item at the provider.
pub fn sanitize_response_item(item: &Json) -> (r: Json)
    ensures
        r@ == sanitized(item@),
{
    match item.clone() {
        Json::Object(members) => Json::Object(
            remove_member(remove_member(members, "id"), "status"),
        ),
        other => other,
    }
}

/// Sanitizing an item again changes nothing.
pub proof fn law_sanitizing_settles(item: JsonView)
    ensures
        sanitized(sanitized(item)) == sanitized(item),
{
    if let JsonView::Object(m) = item {
        let id = "id"@;
        let status = "status"@;
        lemma_without_settles(m, id, status);
        lemma_without_settles(without(m, id), id, status);
        lemma_without_settles(without(m, id), status, id);
    }
}

/// The usage that a response tells.
pub open spec fn usage_in(usage: Option<JsonView>) -> TokenUsage {
    match usage {
        Some(u) => TokenUsage {
            input_tokens: number_in(field(u, "input_tokens"@)),
            output_tokens: number_in(field(u, "output_tokens"@)),
            cached_input_tokens: number_in(field2(u, "input_tokens_details"@, "cached_tokens"@)),
            cache_write_input_tokens: number_in(
                field2(u, "input_tokens_details"@, "cache_write_tokens"@),
            ),
        },
        None => no_usage(),
    }
}

/// Reads the usage that a response tells.
pub fn parse_usage(usage: Option<&Json>) -> (r: TokenUsage)
    ensures
        r == usage_in(json_maybe(usage)),
{
    match usage {
        Some(u) => TokenUsage {
            input_tokens: read_number(u.get("input_tokens")),
            output_tokens: read_number(u.get("output_tokens")),
            cached_input_tokens: read_number(u.get2("input_tokens_details", "cached_tokens")),
            cache_write_input_tokens: read_number(
                u.get2("input_tokens_details", "cache_write_tokens"),
            ),
        },
        None => TokenUsage::default(),
    }
}

/// The type of an event, empty where it has none.
pub open spec fn event_type(value: JsonView) -> Seq<char> {
    match text_field(value, "type"@) {
        Some(t) => t,
        None => Seq::empty(),
    }
}

/// What an item that a response completed is to the library.
pub open spec fn output_item(item: Option<JsonView>) -> Result<
    Option<ModelEventView>,
    ModelErrorView,
> {
    match item {
        None => Ok(None),
        Some(item) => match item_call(item) {
            Err(part) => Err(ModelErrorView::Stream("function call missing "@ + part)),
            Ok(_) => Ok(Some(ModelEventView::ResponseItemCompleted(sanitized(item)))),
        },
    }
}

/// Why a response ended before it was complete.
pub open spec fn failure_reason(value: JsonView) -> Seq<char> {
    let told = match field3(value, "response"@, "error"@, "message"@) {
        Some(v) => Some(v),
        None => field3(value, "response"@, "incomplete_details"@, "reason"@),
    };
    match text_in(told) {
        Some(reason) => reason,
        None => event_type(value),
    }
}

/// What an event of a response is to the library.
pub open spec fn event_in(value: JsonView) -> Result<Option<ModelEventView>, ModelErrorView> {
    let kind = event_type(value);
    if kind == "response.output_text.delta"@ {
        match text_field(value, "delta"@) {
            Some(delta) => Ok(Some(ModelEventView::OutputTextDelta(delta))),
            None => Ok(None),
        }
    } else if kind == "response.output_item.done"@ {
        output_item(field(value, "item"@))
    } else if kind == "response.completed"@ {
        Ok(Some(ModelEventView::Completed(usage_in(field2(value, "response"@, "usage"@)))))
    } else if kind == "response.failed"@ || kind == "response.incomplete"@ {
        Err(
            ModelErrorView::IncompleteResponse {
                reason: failure_reason(value),
                usage: usage_in(field2(value, "response"@, "usage"@)),
            },
        )
    } else if kind == "error"@ {
        Err(
            ModelErrorView::Provider(
                match text_in(field2(value, "error"@, "message"@)) {
                    Some(message) => message,
                    None => "unknown provider error"@,
                },
            ),
        )
    } else {
        Ok(None)
    }
}

/// The value of what was read of an event.
pub open spec fn read_view(r: Result<Option<ModelEvent>, ModelError>) -> Result<
    Option<ModelEventView>,
    ModelErrorView,
> {
    match r {
        Ok(Some(e)) => Ok(Some(e@)),
        Ok(None) => Ok(None),
        Err(e) => Err(e@),
    }
}

fn read_output_item(item: Option<&Json>) -> (r: Result<Option<ModelEvent>, ModelError>)
    ensures
        read_view(r) == output_item(json_maybe(item)),
{
    match item {
        None => Ok(None),
        Some(item) => match tool_call_from_response_item(item) {
            Err(e) => Err(e),
            Ok(_) => Ok(
                Some(ModelEvent::ResponseItemCompleted { item: sanitize_response_item(item) }),
            ),
        },
    }
}

/// Reads an event of a response.
pub fn read_event(value: &Json) -> (r: Result<Option<ModelEvent>, ModelError>)
    ensures
        read_view(r) == event_in(value@),
{
    let kind = match value.text_at("type") {
        Some(kind) => kind,
        None => {
            proof {
                reveal_strlit("");
                assert(""@ =~= Seq::<char>::empty());
            }
            ""
        },
    };
    if same(kind, "response.output_text.delta") {
        match value.text_at("delta") {
            Some(delta) => Ok(Some(ModelEvent::OutputTextDelta { delta: delta.to_owned() })),
            None => Ok(None),
        }
    } else if same(kind, "response.output_item.done") {
        read_output_item(value.get("item"))
    } else if same(kind, "response.completed") {
        Ok(Some(ModelEvent::Completed { usage: parse_usage(value.get2("response", "usage")) }))
    } else if same(kind, "response.failed") || same(kind, "response.incomplete") {
        let told = match value.get3("response", "error", "message") {
            Some(v) => Some(v),
            None => value.get3("response", "incomplete_details", "reason"),
        };
        let reason = match read_text(told) {
            Some(reason) => reason.to_owned(),
            None => kind.to_owned(),
        };
        Err(
            ModelError::IncompleteResponse {
                reason,
                usage: parse_usage(value.get2("response", "usage")),
            },
        )
    } else if same(kind, "error") {
        let message = match read_text(value.get2("error", "message")) {
            Some(message) => message,
            None => "unknown provider error",
        };
        Err(ModelError::Provider(message.to_owned()))
    } else {
        Ok(None)
    }
}

/// Whether the data of an event say nothing: they are blank or mark the end.
pub open spec fn is_idle_data(data: Seq<char>) -> bool {
    trimmed(data).len() == 0 || trimmed(data) == "[DONE]"@
}

/// What the data of an event are to the library.
pub open spec fn event_of(data: Seq<char>) -> Result<Option<ModelEventView>, ModelErrorView> {
    if is_idle_data(data) {
        Ok(None)
    } else {
        match json_parsed(data) {
            Ok(value) => event_in(value),
            Err(e) => Err(ModelErrorView::Stream("invalid SSE JSON: "@ + e)),
        }
    }
}

/// Reads the data of an event.
pub fn parse_event_data(data: &str) -> (r: Result<Option<ModelEvent>, ModelError>)
    ensures
        read_view(r) == event_of(data@),
{
    let text = trim(data);
    if text.as_str().is_empty() || same(text.as_str(), "[DONE]") {
        return Ok(None);
    }
    match Json::parse(data) {
        Ok(value) => read_event(&value),
        Err(e) => {
            let mut message = "invalid SSE JSON: ".to_owned();
            message.append(e.as_str());
            Err(ModelError::Stream(message))
        },
    }
}

/// What asks a provider whether it takes cache marks: the marked request and the one without marks
/// differ in nothing else.
pub open spec fn probe_members(model: Seq<char>, marked: bool) -> Seq<(Seq<char>, JsonView)> {
    seq![
        (
            "input"@,
            JsonView::Array(
                seq![
                    message_of(
                        "developer"@,
                        if marked {
                            marked_block("PaperMachine prompt-cache capability probe."@)
                        } else {
                            text_block(
                                "input_text"@,
                                "PaperMachine prompt-cache capability probe."@,
                            )
                        },
                    ),
                    message_of("user"@, text_block("input_text"@, "Return OK."@)),
                ],
            ),
        ),
        ("instructions"@, JsonView::Text(Seq::empty())),
        ("model"@, JsonView::Text(model)),
        ("prompt_cache_key"@, JsonView::Text("papermachine:cache-capability:v1"@)),
    ] + member_if(
        "prompt_cache_options"@,
        if marked {
            Some(breakpoint())
        } else {
            None
        },
    ) + seq![("store"@, JsonView::Bool(false)), ("stream"@, JsonView::Bool(false))]
}

/// Writes the request that asks a provider whether it takes cache marks.
pub fn prompt_cache_probe_body(model: &str, marked: bool) -> (r: Json)
    ensures
        r@ == JsonView::Object(probe_members(model@, marked)),
{
    let text = "PaperMachine prompt-cache capability probe.";
    let mut input: Vec<Json> = Vec::new();
    let block = if marked {
        marked_block_json(text)
    } else {
        text_block_json("input_text", text)
    };
    input.push(message_json("developer", block));
    input.push(message_json("user", text_block_json("input_text", "Return OK.")));
    assert(views(input@) =~= probe_members(model@, marked)[0].1->Array_0);
    let mut o: Vec<(String, Json)> = Vec::new();
    put(&mut o, "input", Json::Array(input));
    put(&mut o, "instructions", Json::Text(String::new()));
    put(&mut o, "model", Json::text(model));
    put(&mut o, "prompt_cache_key", Json::text("papermachine:cache-capability:v1"));
    put_if(
        &mut o,
        "prompt_cache_options",
        if marked {
            Some(one_json("mode", Json::text("explicit")))
        } else {
            None
        },
    );
    put(&mut o, "store", Json::Bool(false));
    put(&mut o, "stream", Json::Bool(false));
    assert(member_views(o@) =~= probe_members(model@, marked));
    Json::Object(o)
}

} // verus!
