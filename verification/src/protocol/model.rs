//! What is sent to a model and what comes back.

use crate::digest::{digest_form, is_hex};
use crate::json::{group_json, Json, JsonView};
use crate::text::{chars_of, copy_maybe, is_blank, maybe, trimmed};
use vstd::prelude::*;

verus! {

broadcast use group_json;

#[derive(Clone, Copy, Debug, PartialEq, Eq, Structural)]
pub enum MessageRole {
    User,
    Assistant,
    Developer,
}

/// One item of the history that a model is shown.
#[derive(Debug, PartialEq)]
pub enum ModelInputItem {
    Message { role: MessageRole, content: String },
    FunctionCall { call_id: String, name: String, arguments: String },
    FunctionCallOutput { call_id: String, output: Json },
    ResponseItem { item: Json },
}

/// The mathematical value of a [`ModelInputItem`].
pub ghost enum ItemView {
    Message { role: MessageRole, content: Seq<char> },
    FunctionCall { call_id: Seq<char>, name: Seq<char>, arguments: Seq<char> },
    FunctionCallOutput { call_id: Seq<char>, output: JsonView },
    ResponseItem { item: JsonView },
}

impl View for ModelInputItem {
    type V = ItemView;

    open spec fn view(&self) -> ItemView {
        match *self {
            ModelInputItem::Message { role, content } => ItemView::Message {
                role,
                content: content@,
            },
            ModelInputItem::FunctionCall { call_id, name, arguments } => ItemView::FunctionCall {
                call_id: call_id@,
                name: name@,
                arguments: arguments@,
            },
            ModelInputItem::FunctionCallOutput { call_id, output } => ItemView::FunctionCallOutput {
                call_id: call_id@,
                output: output@,
            },
            ModelInputItem::ResponseItem { item } => ItemView::ResponseItem { item: item@ },
        }
    }
}

impl Clone for ModelInputItem {
    fn clone(&self) -> (r: Self)
        ensures
            r@ == self@,
    {
        match self {
            ModelInputItem::Message { role, content } => ModelInputItem::Message {
                role: *role,
                content: content.clone(),
            },
            ModelInputItem::FunctionCall { call_id, name, arguments } => {
                ModelInputItem::FunctionCall {
                    call_id: call_id.clone(),
                    name: name.clone(),
                    arguments: arguments.clone(),
                }
            },
            ModelInputItem::FunctionCallOutput { call_id, output } => {
                ModelInputItem::FunctionCallOutput {
                    call_id: call_id.clone(),
                    output: output.clone(),
                }
            },
            ModelInputItem::ResponseItem { item } => ModelInputItem::ResponseItem {
                item: item.clone(),
            },
        }
    }
}

/// The values of a list of items.
pub open spec fn item_views(items: Seq<ModelInputItem>) -> Seq<ItemView> {
    items.map_values(|i: ModelInputItem| i@)
}

/// Appending an item appends its value.
pub broadcast proof fn lemma_item_views_push(items: Seq<ModelInputItem>, item: ModelInputItem)
    ensures
        #[trigger] item_views(items.push(item)) == item_views(items).push(item@),
{
    assert(item_views(items.push(item)) =~= item_views(items).push(item@));
}

/// Copies a list of items.
pub fn copy_items(items: &Vec<ModelInputItem>) -> (r: Vec<ModelInputItem>)
    ensures
        item_views(r@) == item_views(items@),
{
    let mut r: Vec<ModelInputItem> = Vec::new();
    let mut i: usize = 0;
    while i < items.len()
        invariant
            i <= items.len(),
            item_views(r@) == item_views(items@).take(i as int),
        decreases items.len() - i,
    {
        let item = items[i].clone();
        proof {
            lemma_item_views_push(r@, item);
        }
        r.push(item);
        assert(item_views(r@) =~= item_views(items@).take(i + 1));
        i = i + 1;
    }
    assert(item_views(r@) =~= item_views(items@));
    r
}

/// A user's message.
pub open spec fn user_message(content: Seq<char>) -> ItemView {
    ItemView::Message { role: MessageRole::User, content }
}

/// A tool that a model may call.
#[derive(Debug, PartialEq)]
pub struct ToolDefinition {
    pub name: String,
    pub description: String,
    pub input_schema: Json,
    pub supports_parallel: bool,
}

/// The mathematical value of a [`ToolDefinition`].
pub ghost struct ToolView {
    pub name: Seq<char>,
    pub description: Seq<char>,
    pub input_schema: JsonView,
    pub supports_parallel: bool,
}

impl View for ToolDefinition {
    type V = ToolView;

    open spec fn view(&self) -> ToolView {
        ToolView {
            name: self.name@,
            description: self.description@,
            input_schema: self.input_schema@,
            supports_parallel: self.supports_parallel,
        }
    }
}

impl Clone for ToolDefinition {
    fn clone(&self) -> (r: Self)
        ensures
            r@ == self@,
    {
        ToolDefinition {
            name: self.name.clone(),
            description: self.description.clone(),
            input_schema: self.input_schema.clone(),
            supports_parallel: self.supports_parallel,
        }
    }
}

/// The values of a list of tools.
pub open spec fn tool_views(tools: Seq<ToolDefinition>) -> Seq<ToolView> {
    tools.map_values(|t: ToolDefinition| t@)
}

/// Copies a list of tools.
pub fn copy_tools(tools: &Vec<ToolDefinition>) -> (r: Vec<ToolDefinition>)
    ensures
        tool_views(r@) == tool_views(tools@),
{
    let mut r: Vec<ToolDefinition> = Vec::new();
    let mut i: usize = 0;
    while i < tools.len()
        invariant
            i <= tools.len(),
            tool_views(r@) == tool_views(tools@).take(i as int),
        decreases tools.len() - i,
    {
        let tool = tools[i].clone();
        let ghost before = r@;
        r.push(tool);
        assert(tool_views(r@) =~= tool_views(before).push(tool@));
        assert(tool_views(r@) =~= tool_views(tools@).take(i + 1));
        i = i + 1;
    }
    assert(tool_views(r@) =~= tool_views(tools@));
    r
}

/// A tool that the provider runs.
#[derive(Clone, Copy, Debug, PartialEq, Eq, Structural)]
pub enum HostedTool {
    WebSearch,
}

impl HostedTool {
    pub open spec fn text(self) -> Seq<char> {
        match self {
            HostedTool::WebSearch => "web_search"@,
        }
    }

    pub fn name(self) -> (r: &'static str)
        ensures
            r@ == self.text(),
    {
        match self {
            HostedTool::WebSearch => "web_search",
        }
    }
}

/// How much a hosted web search retrieves.
#[derive(Clone, Copy, Debug, PartialEq, Eq, Structural)]
pub enum WebSearchContextSize {
    Low,
    Medium,
    High,
}

impl WebSearchContextSize {
    pub open spec fn text(self) -> Seq<char> {
        match self {
            WebSearchContextSize::Low => "low"@,
            WebSearchContextSize::Medium => "medium"@,
            WebSearchContextSize::High => "high"@,
        }
    }

    pub fn as_str(self) -> (r: &'static str)
        ensures
            r@ == self.text(),
    {
        match self {
            WebSearchContextSize::Low => "low",
            WebSearchContextSize::Medium => "medium",
            WebSearchContextSize::High => "high",
        }
    }
}

/// Whether a model may call tools.
#[derive(Clone, Copy, Debug, PartialEq, Eq, Structural)]
pub enum ModelToolChoice {
    Auto,
    Never,
}

impl ModelToolChoice {
    pub open spec fn text(self) -> Seq<char> {
        match self {
            ModelToolChoice::Auto => "auto"@,
            ModelToolChoice::Never => "none"@,
        }
    }

    pub fn as_str(self) -> (r: &'static str)
        ensures
            r@ == self.text(),
    {
        match self {
            ModelToolChoice::Auto => "auto",
            ModelToolChoice::Never => "none",
        }
    }
}

impl Default for ModelToolChoice {
    fn default() -> (r: Self)
        ensures
            r == ModelToolChoice::Auto,
    {
        ModelToolChoice::Auto
    }
}

/// How long a model may think.
#[derive(Clone, Copy, Debug, PartialEq, Eq, Structural)]
pub enum ReasoningEffort {
    Off,
    Low,
    Medium,
    High,
    Xhigh,
    Max,
}

impl ReasoningEffort {
    pub open spec fn text(self) -> Seq<char> {
        match self {
            ReasoningEffort::Off => "none"@,
            ReasoningEffort::Low => "low"@,
            ReasoningEffort::Medium => "medium"@,
            ReasoningEffort::High => "high"@,
            ReasoningEffort::Xhigh => "xhigh"@,
            ReasoningEffort::Max => "max"@,
        }
    }

    pub fn as_str(self) -> (r: &'static str)
        ensures
            r@ == self.text(),
    {
        match self {
            ReasoningEffort::Off => "none",
            ReasoningEffort::Low => "low",
            ReasoningEffort::Medium => "medium",
            ReasoningEffort::High => "high",
            ReasoningEffort::Xhigh => "xhigh",
            ReasoningEffort::Max => "max",
        }
    }
}

/// What a route offers besides text.
#[derive(Clone, Copy, Debug, PartialEq, Eq, Structural)]
pub struct ModelRouteCapabilities {
    pub hosted_web_search: bool,
}

impl Default for ModelRouteCapabilities {
    fn default() -> (r: Self)
        ensures
            r.hosted_web_search == false,
    {
        ModelRouteCapabilities { hosted_web_search: false }
    }
}

/// The route that a Turn's requests take, with the identity of its configuration.
#[derive(Debug, PartialEq, Eq)]
pub struct ModelRouteSnapshot {
    pub profile: String,
    pub provider: String,
    pub upstream_model: String,
    pub context_window: usize,
    pub capabilities: ModelRouteCapabilities,
    pub reasoning_effort: Option<ReasoningEffort>,
    pub config_sha256: String,
}

/// Whether a text is a hexadecimal digest.
pub fn is_digest(s: &str) -> (r: bool)
    ensures
        r == digest_form(s@),
{
    let chars = chars_of(s);
    if chars.len() != 64 {
        return false;
    }
    let mut i: usize = 0;
    while i < chars.len()
        invariant
            i <= chars.len() == 64,
            chars@ == s@,
            forall|k: int| 0 <= k < i ==> is_hex(#[trigger] s@[k]),
        decreases chars.len() - i,
    {
        let c = chars[i];
        if !(('0' <= c && c <= '9') || ('a' <= c && c <= 'f') || ('A' <= c && c <= 'F')) {
            assert(!is_hex(s@[i as int]));
            return false;
        }
        i = i + 1;
    }
    true
}

impl ModelRouteSnapshot {
    /// What is wrong with a route, if anything is.
    pub open spec fn fault(&self) -> Option<Seq<char>> {
        if trimmed(self.profile@).len() == 0 || trimmed(self.provider@).len() == 0 || trimmed(
            self.upstream_model@,
        ).len() == 0 {
            Some("model route identifiers must be non-empty"@)
        } else if self.context_window < 4096 {
            Some("model route context window must be at least 4096"@)
        } else if !digest_form(self.config_sha256@) {
            Some("model route config_sha256 must be a SHA-256 hex digest"@)
        } else {
            None
        }
    }

    pub fn validate(&self) -> (r: Result<(), String>)
        ensures
            match r {
                Ok(()) => self.fault() is None,
                Err(fault) => self.fault() == Some(fault@),
            },
    {
        if is_blank(self.profile.as_str()) || is_blank(self.provider.as_str()) || is_blank(
            self.upstream_model.as_str(),
        ) {
            return Err("model route identifiers must be non-empty".to_owned());
        }
        if self.context_window < 4096 {
            return Err("model route context window must be at least 4096".to_owned());
        }
        if !is_digest(self.config_sha256.as_str()) {
            return Err("model route config_sha256 must be a SHA-256 hex digest".to_owned());
        }
        Ok(())
    }
}

/// How prompt caching is asked for.
#[derive(Clone, Copy, Debug, PartialEq, Eq, Structural)]
pub enum PromptCacheStrategy {
    Auto,
    Implicit,
    Explicit,
}

impl PromptCacheStrategy {
    pub open spec fn text(self) -> Seq<char> {
        match self {
            PromptCacheStrategy::Auto => "auto"@,
            PromptCacheStrategy::Implicit => "implicit"@,
            PromptCacheStrategy::Explicit => "explicit"@,
        }
    }

    pub fn as_str(self) -> (r: &'static str)
        ensures
            r@ == self.text(),
    {
        match self {
            PromptCacheStrategy::Auto => "auto",
            PromptCacheStrategy::Implicit => "implicit",
            PromptCacheStrategy::Explicit => "explicit",
        }
    }
}

impl Default for PromptCacheStrategy {
    fn default() -> (r: Self)
        ensures
            r == PromptCacheStrategy::Auto,
    {
        PromptCacheStrategy::Auto
    }
}

/// Where a request's prompt is cached.
#[derive(Debug, PartialEq, Eq)]
pub struct PromptCacheConfig {
    /// Routes the requests of one Session to one cache.
    pub key: String,
    pub strategy: PromptCacheStrategy,
}

impl Clone for PromptCacheConfig {
    fn clone(&self) -> (r: Self)
        ensures
            r == *self,
    {
        PromptCacheConfig { key: self.key.clone(), strategy: self.strategy }
    }
}

/// How prompt caching was asked for.
#[derive(Clone, Copy, Debug, PartialEq, Eq, Structural)]
pub enum PromptCacheMode {
    Implicit,
    Explicit,
}

impl PromptCacheMode {
    pub open spec fn text(self) -> Seq<char> {
        match self {
            PromptCacheMode::Implicit => "implicit"@,
            PromptCacheMode::Explicit => "explicit"@,
        }
    }

    pub fn as_str(self) -> (r: &'static str)
        ensures
            r@ == self.text(),
    {
        match self {
            PromptCacheMode::Implicit => "implicit",
            PromptCacheMode::Explicit => "explicit",
        }
    }
}

/// How a request travelled.
#[derive(Clone, Copy, Debug, PartialEq, Eq, Structural)]
pub enum ModelTransport {
    HttpSse,
    ResponsesWebsocket,
}

impl ModelTransport {
    pub open spec fn text(self) -> Seq<char> {
        match self {
            ModelTransport::HttpSse => "http_sse"@,
            ModelTransport::ResponsesWebsocket => "responses_websocket"@,
        }
    }

    pub fn as_str(self) -> (r: &'static str)
        ensures
            r@ == self.text(),
    {
        match self {
            ModelTransport::HttpSse => "http_sse",
            ModelTransport::ResponsesWebsocket => "responses_websocket",
        }
    }
}

/// How a request was made.
#[derive(Debug, PartialEq, Eq)]
pub struct ModelRequestMetadata {
    pub provider: Option<String>,
    pub api: Option<String>,
    pub model_profile: Option<String>,
    pub upstream_model: Option<String>,
    pub transport: ModelTransport,
    pub prompt_cache_mode: PromptCacheMode,
    pub prompt_cache_key: Option<String>,
    pub prompt_cache_breakpoint: bool,
    pub used_previous_response_id: bool,
    pub continuation_miss_reason: Option<String>,
    pub websocket_fallback_reason: Option<String>,
}

/// The form that a response has to take.
#[derive(Debug, PartialEq)]
pub struct ModelResponseFormat {
    pub name: String,
    pub schema: Json,
    pub strict: bool,
}

/// The mathematical value of a [`ModelResponseFormat`].
pub ghost struct FormatView {
    pub name: Seq<char>,
    pub schema: JsonView,
    pub strict: bool,
}

impl View for ModelResponseFormat {
    type V = FormatView;

    open spec fn view(&self) -> FormatView {
        FormatView { name: self.name@, schema: self.schema@, strict: self.strict }
    }
}

impl Clone for ModelResponseFormat {
    fn clone(&self) -> (r: Self)
        ensures
            r@ == self@,
    {
        ModelResponseFormat {
            name: self.name.clone(),
            schema: self.schema.clone(),
            strict: self.strict,
        }
    }
}

/// The value of a form that may be missing.
pub open spec fn format_view(format: Option<ModelResponseFormat>) -> Option<FormatView> {
    match format {
        Some(f) => Some(f@),
        None => None,
    }
}

/// One request to a model.
#[derive(Debug, PartialEq)]
pub struct ModelRequest {
    pub model: String,
    /// Overrides the route's own effort.
    pub reasoning_effort: Option<ReasoningEffort>,
    pub instructions: String,
    pub input: Vec<ModelInputItem>,
    pub prompt_cache: Option<PromptCacheConfig>,
    /// Names the connection that a request may continue.
    pub transport_session_key: Option<String>,
    pub tools: Vec<ToolDefinition>,
    pub hosted_tools: Vec<HostedTool>,
    /// `None` leaves the provider's default unchanged.
    pub web_search_context_size: Option<WebSearchContextSize>,
    pub parallel_tool_calls: bool,
    pub tool_choice: ModelToolChoice,
    pub response_format: Option<ModelResponseFormat>,
}

/// The mathematical value of a [`ModelRequest`].
pub ghost struct RequestView {
    pub model: Seq<char>,
    pub reasoning_effort: Option<ReasoningEffort>,
    pub instructions: Seq<char>,
    pub input: Seq<ItemView>,
    pub prompt_cache: Option<(Seq<char>, PromptCacheStrategy)>,
    pub transport_session_key: Option<Seq<char>>,
    pub tools: Seq<ToolView>,
    pub hosted_tools: Seq<HostedTool>,
    pub web_search_context_size: Option<WebSearchContextSize>,
    pub parallel_tool_calls: bool,
    pub tool_choice: ModelToolChoice,
    pub response_format: Option<FormatView>,
}

/// The value of a cache configuration that may be missing.
pub open spec fn cache_view(cache: Option<PromptCacheConfig>) -> Option<
    (Seq<char>, PromptCacheStrategy),
> {
    match cache {
        Some(c) => Some((c.key@, c.strategy)),
        None => None,
    }
}

impl View for ModelRequest {
    type V = RequestView;

    open spec fn view(&self) -> RequestView {
        RequestView {
            model: self.model@,
            reasoning_effort: self.reasoning_effort,
            instructions: self.instructions@,
            input: item_views(self.input@),
            prompt_cache: cache_view(self.prompt_cache),
            transport_session_key: maybe(self.transport_session_key),
            tools: tool_views(self.tools@),
            hosted_tools: self.hosted_tools@,
            web_search_context_size: self.web_search_context_size,
            parallel_tool_calls: self.parallel_tool_calls,
            tool_choice: self.tool_choice,
            response_format: format_view(self.response_format),
        }
    }
}

/// Copies a list of hosted tools.
pub fn copy_hosted(tools: &Vec<HostedTool>) -> (r: Vec<HostedTool>)
    ensures
        r@ == tools@,
{
    let mut r: Vec<HostedTool> = Vec::new();
    let mut i: usize = 0;
    while i < tools.len()
        invariant
            i <= tools.len(),
            r@ == tools@.take(i as int),
        decreases tools.len() - i,
    {
        r.push(tools[i]);
        assert(tools@.take(i + 1) =~= tools@.take(i as int).push(tools@[i as int]));
        i = i + 1;
    }
    assert(tools@.take(tools@.len() as int) =~= tools@);
    r
}

impl Clone for ModelRequest {
    fn clone(&self) -> (r: Self)
        ensures
            r@ == self@,
    {
        ModelRequest {
            model: self.model.clone(),
            reasoning_effort: self.reasoning_effort,
            instructions: self.instructions.clone(),
            input: copy_items(&self.input),
            prompt_cache: match &self.prompt_cache {
                Some(c) => Some(c.clone()),
                None => None,
            },
            transport_session_key: copy_maybe(&self.transport_session_key),
            tools: copy_tools(&self.tools),
            hosted_tools: copy_hosted(&self.hosted_tools),
            web_search_context_size: self.web_search_context_size,
            parallel_tool_calls: self.parallel_tool_calls,
            tool_choice: self.tool_choice,
            response_format: match &self.response_format {
                Some(f) => Some(f.clone()),
                None => None,
            },
        }
    }
}

/// A call of a tool that a model asked for.
#[derive(Debug, PartialEq, Eq)]
pub struct ModelToolCall {
    pub call_id: String,
    pub name: String,
    pub arguments: String,
}

/// The mathematical value of a [`ModelToolCall`].
pub ghost struct CallView {
    pub call_id: Seq<char>,
    pub name: Seq<char>,
    pub arguments: Seq<char>,
}

impl View for ModelToolCall {
    type V = CallView;

    open spec fn view(&self) -> CallView {
        CallView { call_id: self.call_id@, name: self.name@, arguments: self.arguments@ }
    }
}

impl Clone for ModelToolCall {
    fn clone(&self) -> (r: Self)
        ensures
            r == *self,
    {
        ModelToolCall {
            call_id: self.call_id.clone(),
            name: self.name.clone(),
            arguments: self.arguments.clone(),
        }
    }
}

/// The values of a list of calls.
pub open spec fn call_views(calls: Seq<ModelToolCall>) -> Seq<CallView> {
    calls.map_values(|c: ModelToolCall| c@)
}

/// The tokens that a request used.
#[derive(Clone, Copy, Debug, PartialEq, Eq, Structural)]
pub struct TokenUsage {
    pub input_tokens: u64,
    pub output_tokens: u64,
    pub cached_input_tokens: u64,
    pub cache_write_input_tokens: u64,
}

/// A sum that stays at the greatest number once it reaches it.
pub open spec fn capped(n: int) -> u64 {
    if n > u64::MAX {
        u64::MAX
    } else {
        n as u64
    }
}

/// The usage of two requests together.
pub open spec fn usage_sum(a: TokenUsage, b: TokenUsage) -> TokenUsage {
    TokenUsage {
        input_tokens: capped(a.input_tokens + b.input_tokens),
        output_tokens: capped(a.output_tokens + b.output_tokens),
        cached_input_tokens: capped(a.cached_input_tokens + b.cached_input_tokens),
        cache_write_input_tokens: capped(a.cache_write_input_tokens + b.cache_write_input_tokens),
    }
}

/// The usage of no request.
pub open spec fn no_usage() -> TokenUsage {
    TokenUsage {
        input_tokens: 0,
        output_tokens: 0,
        cached_input_tokens: 0,
        cache_write_input_tokens: 0,
    }
}

impl Default for TokenUsage {
    fn default() -> (r: Self)
        ensures
            r == no_usage(),
    {
        TokenUsage {
            input_tokens: 0,
            output_tokens: 0,
            cached_input_tokens: 0,
            cache_write_input_tokens: 0,
        }
    }
}

impl TokenUsage {
    pub fn total_tokens(self) -> (r: u64)
        requires
            self.input_tokens + self.output_tokens <= u64::MAX,
        ensures
            r == self.input_tokens + self.output_tokens,
    {
        self.input_tokens + self.output_tokens
    }

    /// The tokens that did not come from the provider's prompt cache: every token of the output,
    /// and what was not cached of the input.
    pub fn uncached_tokens(self) -> (r: u64)
        ensures
            r == capped(
                (if self.input_tokens > self.cached_input_tokens {
                    self.input_tokens - self.cached_input_tokens
                } else {
                    0
                }) + self.output_tokens,
            ),
    {
        self.input_tokens.saturating_sub(self.cached_input_tokens).saturating_add(self.output_tokens)
    }

    pub fn saturating_add_assign(&mut self, other: Self)
        ensures
            *final(self) == usage_sum(*old(self), other),
    {
        self.input_tokens = self.input_tokens.saturating_add(other.input_tokens);
        self.output_tokens = self.output_tokens.saturating_add(other.output_tokens);
        self.cached_input_tokens = self.cached_input_tokens.saturating_add(
            other.cached_input_tokens,
        );
        self.cache_write_input_tokens = self.cache_write_input_tokens.saturating_add(
            other.cache_write_input_tokens,
        );
    }
}

/// Usage adds up to the same whatever the order and grouping of the requests, and no request adds
/// nothing.
pub proof fn law_usage_sums(a: TokenUsage, b: TokenUsage, c: TokenUsage)
    ensures
        usage_sum(a, b) == usage_sum(b, a),
        usage_sum(usage_sum(a, b), c) == usage_sum(a, usage_sum(b, c)),
        usage_sum(a, no_usage()) == a,
{
}

/// One event of a model's response.
#[derive(Debug, PartialEq)]
pub enum ModelEvent {
    RequestMetadata { metadata: ModelRequestMetadata },
    OutputTextDelta { delta: String },
    ToolCallCompleted { call: ModelToolCall },
    ResponseItemCompleted { item: Json },
    Completed { usage: TokenUsage },
}

/// The mathematical value of an event of a response.
pub ghost enum ModelEventView {
    RequestMetadata(ModelRequestMetadata),
    OutputTextDelta(Seq<char>),
    ToolCallCompleted(CallView),
    ResponseItemCompleted(JsonView),
    Completed(TokenUsage),
}

impl View for ModelEvent {
    type V = ModelEventView;

    open spec fn view(&self) -> ModelEventView {
        match *self {
            ModelEvent::RequestMetadata { metadata } => ModelEventView::RequestMetadata(metadata),
            ModelEvent::OutputTextDelta { delta } => ModelEventView::OutputTextDelta(delta@),
            ModelEvent::ToolCallCompleted { call } => ModelEventView::ToolCallCompleted(call@),
            ModelEvent::ResponseItemCompleted { item } => {
                ModelEventView::ResponseItemCompleted(item@)
            },
            ModelEvent::Completed { usage } => ModelEventView::Completed(usage),
        }
    }
}

} // verus!
