//! Model providers as a configuration file describes them.

use crate::json::{group_json, member_views, put, views, Json, JsonView};
use crate::model::chat::{blank_chat_key, OpenAiChatCompatibility, OpenAiChatConfig};
use crate::model::endpoint::{
    base_url, chat_api, chat_completions_endpoint, normalize_base_url, responses_api,
    responses_endpoint,
};
use crate::model::error::{ModelError, ModelErrorView};
use crate::model::http::client_fault;
use crate::model::metadata::{effort_json, effort_view, optional_text, owned_json};
use crate::model::responses::{
    blank_responses_key, protocol_effort, protocol_reasoning_effort, OpenAiPromptCacheMode,
    OpenAiReasoningEffort, OpenAiResponsesConfig,
};
use crate::model::route::{hash_route_config, route_hash};
use crate::protocol::model::ReasoningEffort;
use crate::text::{copy_maybe, debug_text, is_blank, maybe, quoted, same, trim, trimmed};
use vstd::prelude::*;

verus! {

broadcast use group_json;

/// How long the headers of an answer are awaited, in seconds, where nothing else is said.
pub const DEFAULT_MODEL_REQUEST_TIMEOUT: u64 = 900;

/// How long the next part of an answer is awaited, in seconds, where nothing else is said.
pub const DEFAULT_MODEL_STREAM_IDLE_TIMEOUT: u64 = 300;

/// The API that a model is reached by.
#[derive(Clone, Copy, Debug, PartialEq, Eq, PartialOrd, Ord, Hash, Structural)]
pub enum ModelApi {
    OpenAiResponses,
    OpenAiChatCompletions,
}

impl ModelApi {
    /// The API's name.
    pub open spec fn text(self) -> Seq<char> {
        match self {
            ModelApi::OpenAiResponses => "open_ai_responses"@,
            ModelApi::OpenAiChatCompletions => "open_ai_chat_completions"@,
        }
    }

    /// The API's name.
    pub fn as_str(self) -> (r: &'static str)
        ensures
            r@ == self.text(),
    {
        match self {
            ModelApi::OpenAiResponses => "open_ai_responses",
            ModelApi::OpenAiChatCompletions => "open_ai_chat_completions",
        }
    }
}

/// What a model can do beyond answering.
#[derive(Clone, Copy, Debug, PartialEq, Eq, Hash, Structural)]
pub enum ModelCapability {
    HostedWebSearch,
}

impl ModelCapability {
    /// The capability's name.
    pub open spec fn text(self) -> Seq<char> {
        match self {
            ModelCapability::HostedWebSearch => "hosted_web_search"@,
        }
    }

    /// The capability's name.
    pub fn as_str(self) -> (r: &'static str)
        ensures
            r@ == self.text(),
    {
        match self {
            ModelCapability::HostedWebSearch => "hosted_web_search",
        }
    }
}

/// Capabilities as JSON.
pub open spec fn capabilities_view(capabilities: Seq<ModelCapability>) -> JsonView {
    JsonView::Array(capabilities.map_values(|c: ModelCapability| JsonView::Text(c.text())))
}

/// Writes capabilities.
pub fn capabilities_json(capabilities: &Vec<ModelCapability>) -> (r: Json)
    ensures
        r@ == capabilities_view(capabilities@),
{
    let ghost all = capabilities_view(capabilities@)->Array_0;
    let mut items: Vec<Json> = Vec::new();
    let mut i: usize = 0;
    assert(views(items@) =~= all.take(0));
    while i < capabilities.len()
        invariant
            i <= capabilities.len(),
            all == capabilities_view(capabilities@)->Array_0,
            views(items@) == all.take(i as int),
        decreases capabilities.len() - i,
    {
        items.push(Json::text(capabilities[i].as_str()));
        assert(views(items@) =~= all.take(i + 1));
        i = i + 1;
    }
    assert(all.take(i as int) =~= all);
    Json::Array(items)
}

/// Whether capabilities hold one.
pub fn has_capability(capabilities: &Vec<ModelCapability>, capability: ModelCapability) -> (r: bool)
    ensures
        r == capabilities@.contains(capability),
{
    let mut i: usize = 0;
    while i < capabilities.len()
        invariant
            i <= capabilities.len(),
            forall|k: int| 0 <= k < i ==> capabilities@[k] != capability,
        decreases capabilities.len() - i,
    {
        if capabilities[i] == capability {
            return true;
        }
        i = i + 1;
    }
    false
}

/// Whether no capability occurs twice.
pub fn are_distinct(capabilities: &Vec<ModelCapability>) -> (r: bool)
    ensures
        r == capabilities@.no_duplicates(),
{
    let mut i: usize = 0;
    while i < capabilities.len()
        invariant
            i <= capabilities.len(),
            forall|a: int, b: int|
                0 <= a < b < capabilities@.len() && a < i ==> capabilities@[a] != capabilities@[b],
        decreases capabilities.len() - i,
    {
        let mut j: usize = i + 1;
        while j < capabilities.len()
            invariant
                i < j <= capabilities.len(),
                forall|b: int| i < b < j ==> capabilities@[i as int] != capabilities@[b],
            decreases capabilities.len() - j,
        {
            if capabilities[i] == capabilities[j] {
                return false;
            }
            j = j + 1;
        }
        i = i + 1;
    }
    true
}

/// A provider, as the configuration describes it.
#[derive(Debug)]
pub struct ProviderConfigFile {
    pub base_url: String,
    /// The variable of the environment that holds the key.
    pub api_key_env: String,
    /// Whether the provider may do without a key: it is unavailable then.
    pub optional: bool,
    pub organization: Option<String>,
    pub project: Option<String>,
    pub max_request_retries: Option<u32>,
    pub request_timeout_seconds: Option<u64>,
    pub stream_idle_timeout_seconds: Option<u64>,
    pub reasoning_effort: Option<OpenAiReasoningEffort>,
    pub store_responses: Option<bool>,
    pub responses_websockets: Option<bool>,
    pub prompt_cache_mode: Option<OpenAiPromptCacheMode>,
    pub chat_compatibility: OpenAiChatCompatibility,
}

/// A model, as the configuration describes it.
#[derive(Debug)]
pub struct ModelProfileFile {
    pub provider: String,
    pub api: ModelApi,
    pub model: String,
    pub context_window: usize,
    pub capabilities: Vec<ModelCapability>,
}

/// A configuration: its providers and models, each with its identifier.
#[derive(Debug)]
pub struct ModelConfigFile {
    pub default_model: String,
    pub providers: Vec<(String, ProviderConfigFile)>,
    pub models: Vec<(String, ModelProfileFile)>,
}

/// Whether a character may stand in an identifier.
pub open spec fn identifier_char(c: char) -> bool {
    ('0' <= c && c <= '9') || ('a' <= c && c <= 'z') || ('A' <= c && c <= 'Z') || c == '-' || c
        == '_' || c == '.'
}

/// Whether a text is an identifier.
pub open spec fn is_identifier(s: Seq<char>) -> bool {
    s.len() > 0 && forall|i: int| 0 <= i < s.len() ==> identifier_char(#[trigger] s[i])
}

/// What is said of a text that is no identifier.
pub open spec fn identifier_fault(kind: Seq<char>, value: Seq<char>) -> Seq<char> {
    kind + " identifier "@ + debug_text(value)
        + " may contain only letters, digits, dot, dash, and underscore"@
}

/// Accepts an identifier.
pub fn validate_identifier(kind: &str, value: &str) -> (r: Result<(), ModelError>)
    ensures
        match r {
            Ok(()) => is_identifier(value@),
            Err(e) => !is_identifier(value@) && e@ == ModelErrorView::Configuration(
                identifier_fault(kind@, value@),
            ),
        },
{
    let n = value.unicode_len();
    let mut valid = n > 0;
    let mut i: usize = 0;
    while i < n && valid
        invariant
            i <= n,
            n == value@.len(),
            valid ==> n > 0 && forall|k: int| 0 <= k < i ==> identifier_char(#[trigger] value@[k]),
            !valid ==> !is_identifier(value@),
        decreases n - i,
    {
        let c = value.get_char(i);
        if !(('0' <= c && c <= '9') || ('a' <= c && c <= 'z') || ('A' <= c && c <= 'Z') || c == '-'
            || c == '_' || c == '.') {
            assert(!identifier_char(value@[i as int]));
            valid = false;
        }
        i = i + 1;
    }
    if valid {
        Ok(())
    } else {
        let mut message = kind.to_owned();
        message.append(" identifier ");
        let name = quoted(value);
        message.append(name.as_str());
        message.append(" may contain only letters, digits, dot, dash, and underscore");
        Err(ModelError::Configuration(message))
    }
}

/// A number of seconds that has to be positive, or what is said where it is not.
pub open spec fn positive(name: Seq<char>, seconds: Option<u64>, default: u64) -> Result<
    u64,
    Seq<char>,
> {
    match seconds {
        Some(n) => if n == 0 {
            Err(name + " must be greater than zero"@)
        } else {
            Ok(n)
        },
        None => Ok(default),
    }
}

/// Accepts a positive number of seconds, or takes the default.
pub fn positive_duration(name: &str, seconds: Option<u64>, default: u64) -> (r: Result<
    u64,
    ModelError,
>)
    ensures
        match r {
            Ok(n) => positive(name@, seconds, default) == Ok::<u64, Seq<char>>(n),
            Err(e) => positive(name@, seconds, default) matches Err(m) && e@
                == ModelErrorView::Configuration(m),
        },
{
    match seconds {
        Some(n) => {
            if n == 0 {
                let mut message = name.to_owned();
                message.append(" must be greater than zero");
                Err(ModelError::Configuration(message))
            } else {
                Ok(n)
            }
        },
        None => Ok(default),
    }
}

/// The value of a variable.
pub open spec fn key_named(keys: Seq<(String, String)>, name: Seq<char>) -> Option<Seq<char>>
    decreases keys.len(),
{
    if keys.len() == 0 {
        None
    } else if keys[0].0@ == name {
        Some(keys[0].1@)
    } else {
        key_named(keys.drop_first(), name)
    }
}

/// The key of a variable: its value, unless that is blank.
pub open spec fn usable_key(keys: Seq<(String, String)>, name: Seq<char>) -> Option<Seq<char>> {
    match key_named(keys, name) {
        Some(value) => if trimmed(value).len() == 0 {
            None
        } else {
            Some(value)
        },
        None => None,
    }
}

/// Finds the key of a variable.
pub fn find_key(keys: &Vec<(String, String)>, name: &str) -> (r: Option<String>)
    ensures
        maybe(r) == usable_key(keys@, name@),
{
    let mut i: usize = 0;
    assert(keys@.skip(0) =~= keys@);
    while i < keys.len()
        invariant
            i <= keys.len(),
            key_named(keys@, name@) == key_named(keys@.skip(i as int), name@),
        decreases keys.len() - i,
    {
        assert(keys@.skip(i as int)[0] == keys@[i as int]);
        if same(keys[i].0.as_str(), name) {
            if is_blank(keys[i].1.as_str()) {
                return None;
            }
            return Some(keys[i].1.clone());
        }
        assert(keys@.skip(i as int).drop_first() =~= keys@.skip(i + 1));
        i = i + 1;
    }
    None
}

/// The variables that hold the keys of a configuration's providers.
pub fn key_names(file: &ModelConfigFile) -> (r: Vec<String>)
    ensures
        r@.len() == file.providers@.len(),
        forall|i: int|
            0 <= i < r@.len() ==> (#[trigger] r@[i])@ == trimmed(file.providers@[i].1.api_key_env@),
{
    let mut r: Vec<String> = Vec::new();
    let mut i: usize = 0;
    while i < file.providers.len()
        invariant
            i <= file.providers@.len(),
            r@.len() == i,
            forall|k: int|
                0 <= k < i ==> (#[trigger] r@[k])@ == trimmed(file.providers@[k].1.api_key_env@),
        decreases file.providers.len() - i,
    {
        r.push(trim(file.providers[i].1.api_key_env.as_str()));
        i = i + 1;
    }
    r
}

/// A provider that can be used: its key is known and its settings are checked. It has no `Debug`
/// form, which would show the key.
pub struct ResolvedProvider {
    pub base_url: String,
    pub api_key_env: String,
    pub optional: bool,
    pub api_key: String,
    pub organization: Option<String>,
    pub project: Option<String>,
    pub max_request_retries: u32,
    pub request_timeout_seconds: u64,
    pub stream_idle_timeout_seconds: u64,
    pub reasoning_effort: Option<OpenAiReasoningEffort>,
    pub store_responses: bool,
    pub responses_websockets: bool,
    pub prompt_cache_mode: OpenAiPromptCacheMode,
    pub chat_compatibility: OpenAiChatCompatibility,
}

/// The mathematical value of a [`ResolvedProvider`].
pub ghost struct ResolvedView {
    pub base_url: Seq<char>,
    pub api_key_env: Seq<char>,
    pub optional: bool,
    pub api_key: Seq<char>,
    pub organization: Option<Seq<char>>,
    pub project: Option<Seq<char>>,
    pub max_request_retries: u32,
    pub request_timeout_seconds: u64,
    pub stream_idle_timeout_seconds: u64,
    pub reasoning_effort: Option<OpenAiReasoningEffort>,
    pub store_responses: bool,
    pub responses_websockets: bool,
    pub prompt_cache_mode: OpenAiPromptCacheMode,
    pub chat_compatibility: OpenAiChatCompatibility,
}

impl View for ResolvedProvider {
    type V = ResolvedView;

    open spec fn view(&self) -> ResolvedView {
        ResolvedView {
            base_url: self.base_url@,
            api_key_env: self.api_key_env@,
            optional: self.optional,
            api_key: self.api_key@,
            organization: maybe(self.organization),
            project: maybe(self.project),
            max_request_retries: self.max_request_retries,
            request_timeout_seconds: self.request_timeout_seconds,
            stream_idle_timeout_seconds: self.stream_idle_timeout_seconds,
            reasoning_effort: self.reasoning_effort,
            store_responses: self.store_responses,
            responses_websockets: self.responses_websockets,
            prompt_cache_mode: self.prompt_cache_mode,
            chat_compatibility: self.chat_compatibility,
        }
    }
}

/// A value that may be missing, or its default.
pub open spec fn or_default<T>(value: Option<T>, default: T) -> T {
    match value {
        Some(v) => v,
        None => default,
    }
}

/// The effort that a provider's models make where nothing else is asked.
pub open spec fn default_effort(p: ResolvedView) -> Option<ReasoningEffort> {
    match p.reasoning_effort {
        Some(e) => Some(protocol_effort(e)),
        None => None,
    }
}

/// A provider with its key, or what is wrong with its settings.
pub open spec fn with_key(p: ProviderConfigFile, api_key: Seq<char>) -> Result<
    ResolvedView,
    Seq<char>,
> {
    match base_url(p.base_url@) {
        Err(e) => Err(e),
        Ok(url) => match positive(
            "request_timeout_seconds"@,
            p.request_timeout_seconds,
            DEFAULT_MODEL_REQUEST_TIMEOUT,
        ) {
            Err(e) => Err(e),
            Ok(request_timeout_seconds) => match positive(
                "stream_idle_timeout_seconds"@,
                p.stream_idle_timeout_seconds,
                DEFAULT_MODEL_STREAM_IDLE_TIMEOUT,
            ) {
                Err(e) => Err(e),
                Ok(stream_idle_timeout_seconds) => Ok(
                    ResolvedView {
                        base_url: url,
                        api_key_env: trimmed(p.api_key_env@),
                        optional: p.optional,
                        api_key,
                        organization: maybe(p.organization),
                        project: maybe(p.project),
                        max_request_retries: or_default(p.max_request_retries, 2),
                        request_timeout_seconds,
                        stream_idle_timeout_seconds,
                        reasoning_effort: p.reasoning_effort,
                        store_responses: or_default(p.store_responses, false),
                        responses_websockets: or_default(p.responses_websockets, true),
                        prompt_cache_mode: or_default(
                            p.prompt_cache_mode,
                            OpenAiPromptCacheMode::Auto,
                        ),
                        chat_compatibility: p.chat_compatibility,
                    },
                ),
            },
        },
    }
}

/// A provider ready for use, none where it may do without a key and has none, or what is wrong
/// with it.
pub open spec fn resolved(id: Seq<char>, p: ProviderConfigFile, keys: Seq<(String, String)>) -> Result<
    Option<ResolvedView>,
    Seq<char>,
> {
    if !is_identifier(id) {
        Err(identifier_fault("provider"@, id))
    } else if trimmed(p.api_key_env@).len() == 0 {
        Err("provider "@ + debug_text(id) + " must set api_key_env"@)
    } else {
        match usable_key(keys, trimmed(p.api_key_env@)) {
            None => if p.optional {
                Ok(None)
            } else {
                Err(
                    "provider "@ + debug_text(id) + " requires non-empty environment variable "@
                        + p.api_key_env@,
                )
            },
            Some(key) => match with_key(p, key) {
                Ok(r) => Ok(Some(r)),
                Err(e) => Err(e),
            },
        }
    }
}

/// Words about something quoted.
pub(crate) fn about(prefix: &str, name: &str, suffix: &str) -> (r: ModelError)
    ensures
        r@ == ModelErrorView::Configuration(prefix@ + debug_text(name@) + suffix@),
{
    let mut message = prefix.to_owned();
    let shown = quoted(name);
    message.append(shown.as_str());
    message.append(suffix);
    ModelError::Configuration(message)
}

/// Makes a provider ready for use.
pub fn resolve_provider(
    id: &str,
    provider: &ProviderConfigFile,
    keys: &Vec<(String, String)>,
) -> (r: Result<Option<ResolvedProvider>, ModelError>)
    ensures
        match r {
            Ok(Some(p)) => resolved(id@, *provider, keys@) == Ok::<
                Option<ResolvedView>,
                Seq<char>,
            >(Some(p@)),
            Ok(None) => resolved(id@, *provider, keys@) == Ok::<Option<ResolvedView>, Seq<char>>(
                None,
            ),
            Err(e) => resolved(id@, *provider, keys@) matches Err(m) && e@
                == ModelErrorView::Configuration(m),
        },
{
    validate_identifier("provider", id)?;
    let api_key_env = trim(provider.api_key_env.as_str());
    if api_key_env.as_str().is_empty() {
        return Err(about("provider ", id, " must set api_key_env"));
    }
    let api_key = match find_key(keys, api_key_env.as_str()) {
        Some(key) => key,
        None => {
            if provider.optional {
                return Ok(None);
            }
            let mut message = "provider ".to_owned();
            let shown = quoted(id);
            message.append(shown.as_str());
            message.append(" requires non-empty environment variable ");
            message.append(provider.api_key_env.as_str());
            return Err(ModelError::Configuration(message));
        },
    };
    let base_url = match normalize_base_url(provider.base_url.as_str()) {
        Ok(url) => url,
        Err(e) => {
            return Err(e);
        },
    };
    let request_timeout_seconds = positive_duration(
        "request_timeout_seconds",
        provider.request_timeout_seconds,
        DEFAULT_MODEL_REQUEST_TIMEOUT,
    )?;
    let stream_idle_timeout_seconds = positive_duration(
        "stream_idle_timeout_seconds",
        provider.stream_idle_timeout_seconds,
        DEFAULT_MODEL_STREAM_IDLE_TIMEOUT,
    )?;
    Ok(
        Some(
            ResolvedProvider {
                base_url,
                api_key_env,
                optional: provider.optional,
                api_key,
                organization: copy_maybe(&provider.organization),
                project: copy_maybe(&provider.project),
                max_request_retries: match provider.max_request_retries {
                    Some(n) => n,
                    None => 2,
                },
                request_timeout_seconds,
                stream_idle_timeout_seconds,
                reasoning_effort: provider.reasoning_effort,
                store_responses: match provider.store_responses {
                    Some(b) => b,
                    None => false,
                },
                responses_websockets: match provider.responses_websockets {
                    Some(b) => b,
                    None => true,
                },
                prompt_cache_mode: match provider.prompt_cache_mode {
                    Some(mode) => mode,
                    None => OpenAiPromptCacheMode::Auto,
                },
                chat_compatibility: provider.chat_compatibility,
            },
        ),
    )
}

/// What identifies how a provider's Responses API is used.
pub open spec fn responses_identity(
    id: Seq<char>,
    p: ResolvedView,
    endpoint: Seq<char>,
    hosted_web_search: bool,
) -> JsonView {
    JsonView::Object(
        seq![
            ("api"@, JsonView::Text(ModelApi::OpenAiResponses.text())),
            ("api_key_env"@, JsonView::Text(p.api_key_env)),
            ("endpoint"@, JsonView::Text(endpoint)),
            ("hosted_web_search"@, JsonView::Bool(hosted_web_search)),
            ("max_request_retries"@, JsonView::Integer(p.max_request_retries as int)),
            ("optional"@, JsonView::Bool(p.optional)),
            ("organization"@, optional_text(p.organization)),
            ("project"@, optional_text(p.project)),
            ("prompt_cache_mode"@, JsonView::Text(p.prompt_cache_mode.text())),
            ("provider"@, JsonView::Text(id)),
            ("reasoning_effort"@, effort_view(default_effort(p))),
            ("request_timeout_seconds"@, JsonView::Integer(p.request_timeout_seconds as int)),
            ("responses_websockets"@, JsonView::Bool(p.responses_websockets)),
            ("store_responses"@, JsonView::Bool(p.store_responses)),
            (
                "stream_idle_timeout_seconds"@,
                JsonView::Integer(p.stream_idle_timeout_seconds as int),
            ),
        ],
    )
}

/// What identifies how a provider's Chat Completions API is used.
pub open spec fn chat_identity(id: Seq<char>, p: ResolvedView, endpoint: Seq<char>) -> JsonView {
    JsonView::Object(
        seq![
            ("api"@, JsonView::Text(ModelApi::OpenAiChatCompletions.text())),
            ("api_key_env"@, JsonView::Text(p.api_key_env)),
            ("chat_compatibility"@, JsonView::Text(p.chat_compatibility.text())),
            ("endpoint"@, JsonView::Text(endpoint)),
            ("max_request_retries"@, JsonView::Integer(p.max_request_retries as int)),
            ("optional"@, JsonView::Bool(p.optional)),
            ("organization"@, optional_text(p.organization)),
            ("project"@, optional_text(p.project)),
            ("provider"@, JsonView::Text(id)),
            ("reasoning_effort"@, effort_view(default_effort(p))),
            ("request_timeout_seconds"@, JsonView::Integer(p.request_timeout_seconds as int)),
            (
                "stream_idle_timeout_seconds"@,
                JsonView::Integer(p.stream_idle_timeout_seconds as int),
            ),
        ],
    )
}

fn provider_effort(provider: &ResolvedProvider) -> (r: Option<ReasoningEffort>)
    ensures
        r == default_effort(provider@),
{
    match provider.reasoning_effort {
        Some(e) => Some(protocol_reasoning_effort(e)),
        None => None,
    }
}

fn responses_identity_json(
    id: &str,
    provider: &ResolvedProvider,
    endpoint: &str,
    hosted_web_search: bool,
) -> (r: Json)
    ensures
        r@ == responses_identity(id@, provider@, endpoint@, hosted_web_search),
{
    let mut o: Vec<(String, Json)> = Vec::new();
    put(&mut o, "api", Json::text(ModelApi::OpenAiResponses.as_str()));
    put(&mut o, "api_key_env", Json::text(provider.api_key_env.as_str()));
    put(&mut o, "endpoint", Json::text(endpoint));
    put(&mut o, "hosted_web_search", Json::Bool(hosted_web_search));
    put(&mut o, "max_request_retries", Json::Unsigned(provider.max_request_retries as u64));
    put(&mut o, "optional", Json::Bool(provider.optional));
    put(&mut o, "organization", owned_json(&provider.organization));
    put(&mut o, "project", owned_json(&provider.project));
    put(&mut o, "prompt_cache_mode", Json::text(provider.prompt_cache_mode.as_str()));
    put(&mut o, "provider", Json::text(id));
    put(&mut o, "reasoning_effort", effort_json(provider_effort(provider)));
    put(&mut o, "request_timeout_seconds", Json::Unsigned(provider.request_timeout_seconds));
    put(&mut o, "responses_websockets", Json::Bool(provider.responses_websockets));
    put(&mut o, "store_responses", Json::Bool(provider.store_responses));
    put(
        &mut o,
        "stream_idle_timeout_seconds",
        Json::Unsigned(provider.stream_idle_timeout_seconds),
    );
    assert(member_views(o@) =~= responses_identity(
        id@,
        provider@,
        endpoint@,
        hosted_web_search,
    )->Object_0);
    Json::Object(o)
}

fn chat_identity_json(id: &str, provider: &ResolvedProvider, endpoint: &str) -> (r: Json)
    ensures
        r@ == chat_identity(id@, provider@, endpoint@),
{
    let mut o: Vec<(String, Json)> = Vec::new();
    put(&mut o, "api", Json::text(ModelApi::OpenAiChatCompletions.as_str()));
    put(&mut o, "api_key_env", Json::text(provider.api_key_env.as_str()));
    put(&mut o, "chat_compatibility", Json::text(provider.chat_compatibility.as_str()));
    put(&mut o, "endpoint", Json::text(endpoint));
    put(&mut o, "max_request_retries", Json::Unsigned(provider.max_request_retries as u64));
    put(&mut o, "optional", Json::Bool(provider.optional));
    put(&mut o, "organization", owned_json(&provider.organization));
    put(&mut o, "project", owned_json(&provider.project));
    put(&mut o, "provider", Json::text(id));
    put(&mut o, "reasoning_effort", effort_json(provider_effort(provider)));
    put(&mut o, "request_timeout_seconds", Json::Unsigned(provider.request_timeout_seconds));
    put(
        &mut o,
        "stream_idle_timeout_seconds",
        Json::Unsigned(provider.stream_idle_timeout_seconds),
    );
    assert(member_views(o@) =~= chat_identity(id@, provider@, endpoint@)->Object_0);
    Json::Object(o)
}

/// How one of a provider's APIs is used.
pub enum ApiClientConfig {
    Responses(OpenAiResponsesConfig),
    Chat(OpenAiChatConfig),
}

/// A client of one of a provider's APIs.
pub struct ApiClient {
    pub provider: String,
    pub config: ApiClientConfig,
    /// The identity of how the API is used. It does not depend on the key.
    pub config_sha256: String,
}

/// The mathematical value of an [`ApiClient`].
pub ghost struct ClientView {
    pub provider: Seq<char>,
    pub api: ModelApi,
    pub settings: ResolvedView,
    pub endpoint: Seq<char>,
    pub hosted_web_search: bool,
    pub config_sha256: Seq<char>,
}

/// Whether a configuration of the Responses API is that of a provider.
pub open spec fn is_responses_config(
    c: OpenAiResponsesConfig,
    id: Seq<char>,
    p: ResolvedView,
    endpoint: Seq<char>,
    hosted_web_search: bool,
) -> bool {
    &&& c.provider_id@ == id
    &&& c.endpoint@ == endpoint
    &&& c.api_key@ == p.api_key
    &&& maybe(c.organization) == p.organization
    &&& maybe(c.project) == p.project
    &&& c.max_request_retries == p.max_request_retries
    &&& c.request_timeout_seconds == p.request_timeout_seconds
    &&& c.stream_idle_timeout_seconds == p.stream_idle_timeout_seconds
    &&& c.reasoning_effort == p.reasoning_effort
    &&& c.store_responses == p.store_responses
    &&& c.responses_websockets == p.responses_websockets
    &&& c.hosted_web_search == hosted_web_search
    &&& c.prompt_cache_mode == p.prompt_cache_mode
}

/// Whether a configuration of the Chat Completions API is that of a provider.
pub open spec fn is_chat_config(
    c: OpenAiChatConfig,
    id: Seq<char>,
    p: ResolvedView,
    endpoint: Seq<char>,
) -> bool {
    &&& c.provider_id@ == id
    &&& c.endpoint@ == endpoint
    &&& c.api_key@ == p.api_key
    &&& maybe(c.organization) == p.organization
    &&& maybe(c.project) == p.project
    &&& c.max_request_retries == p.max_request_retries
    &&& c.request_timeout_seconds == p.request_timeout_seconds
    &&& c.stream_idle_timeout_seconds == p.stream_idle_timeout_seconds
    &&& c.reasoning_effort == p.reasoning_effort
    &&& c.compatibility == p.chat_compatibility
}

/// Whether a client is the one of a value.
pub open spec fn is_client(c: ApiClient, v: ClientView) -> bool {
    &&& c.provider@ == v.provider
    &&& c.config_sha256@ == v.config_sha256
    &&& match c.config {
        ApiClientConfig::Responses(config) => v.api == ModelApi::OpenAiResponses
            && is_responses_config(
            config,
            v.provider,
            v.settings,
            v.endpoint,
            v.hosted_web_search,
        ),
        ApiClientConfig::Chat(config) => v.api == ModelApi::OpenAiChatCompletions
            && !v.hosted_web_search && is_chat_config(config, v.provider, v.settings, v.endpoint),
    }
}

/// The client of one of a provider's APIs, or what is wrong with it.
pub open spec fn api_client(
    id: Seq<char>,
    p: ResolvedView,
    api: ModelApi,
    hosted_web_search: bool,
) -> Result<ClientView, Seq<char>> {
    let chat = api == ModelApi::OpenAiChatCompletions;
    let endpoint = if chat {
        chat_api(p.base_url)
    } else {
        responses_api(p.base_url)
    };
    match endpoint {
        Err(e) => Err(e),
        Ok(endpoint) => {
            let blank = if chat {
                blank_chat_key()
            } else {
                blank_responses_key()
            };
            match client_fault(blank, p.api_key, p.organization, p.project) {
                Some(fault) => Err(fault),
                None => Ok(
                    ClientView {
                        provider: id,
                        api,
                        settings: p,
                        endpoint,
                        hosted_web_search: !chat && hosted_web_search,
                        config_sha256: route_hash(
                            if chat {
                                chat_identity(id, p, endpoint)
                            } else {
                                responses_identity(id, p, endpoint, hosted_web_search)
                            },
                        ),
                    },
                ),
            }
        },
    }
}

/// Makes a client of one of a provider's APIs.
pub fn build_api_client(
    provider_id: &str,
    provider: &ResolvedProvider,
    api: ModelApi,
    hosted_web_search: bool,
) -> (r: Result<ApiClient, ModelError>)
    ensures
        match r {
            Ok(client) => api_client(provider_id@, provider@, api, hosted_web_search) matches Ok(v)
                && is_client(client, v),
            Err(e) => api_client(provider_id@, provider@, api, hosted_web_search) matches Err(m)
                && e@ == ModelErrorView::Configuration(m),
        },
{
    match api {
        ModelApi::OpenAiResponses => {
            let endpoint = match responses_endpoint(provider.base_url.as_str()) {
                Ok(endpoint) => endpoint,
                Err(e) => {
                    return Err(e);
                },
            };
            let config_sha256 = hash_route_config(
                &responses_identity_json(
                    provider_id,
                    provider,
                    endpoint.as_str(),
                    hosted_web_search,
                ),
            );
            let config = OpenAiResponsesConfig {
                provider_id: provider_id.to_owned(),
                endpoint,
                api_key: provider.api_key.clone(),
                organization: copy_maybe(&provider.organization),
                project: copy_maybe(&provider.project),
                max_request_retries: provider.max_request_retries,
                request_timeout_seconds: provider.request_timeout_seconds,
                stream_idle_timeout_seconds: provider.stream_idle_timeout_seconds,
                reasoning_effort: provider.reasoning_effort,
                store_responses: provider.store_responses,
                responses_websockets: provider.responses_websockets,
                hosted_web_search,
                prompt_cache_mode: provider.prompt_cache_mode,
            };
            match config.headers() {
                Ok(_) => {},
                Err(e) => {
                    return Err(e);
                },
            }
            Ok(
                ApiClient {
                    provider: provider_id.to_owned(),
                    config: ApiClientConfig::Responses(config),
                    config_sha256,
                },
            )
        },
        ModelApi::OpenAiChatCompletions => {
            let endpoint = match chat_completions_endpoint(provider.base_url.as_str()) {
                Ok(endpoint) => endpoint,
                Err(e) => {
                    return Err(e);
                },
            };
            let config_sha256 = hash_route_config(
                &chat_identity_json(provider_id, provider, endpoint.as_str()),
            );
            let config = OpenAiChatConfig {
                provider_id: provider_id.to_owned(),
                endpoint,
                api_key: provider.api_key.clone(),
                organization: copy_maybe(&provider.organization),
                project: copy_maybe(&provider.project),
                max_request_retries: provider.max_request_retries,
                request_timeout_seconds: provider.request_timeout_seconds,
                stream_idle_timeout_seconds: provider.stream_idle_timeout_seconds,
                reasoning_effort: provider.reasoning_effort,
                compatibility: provider.chat_compatibility,
            };
            match config.headers() {
                Ok(_) => {},
                Err(e) => {
                    return Err(e);
                },
            }
            Ok(
                ApiClient {
                    provider: provider_id.to_owned(),
                    config: ApiClientConfig::Chat(config),
                    config_sha256,
                },
            )
        },
    }
}

/// The identity of a client does not depend on the provider's key.
pub proof fn law_identity_hides_the_key(
    id: Seq<char>,
    a: ResolvedView,
    b: ResolvedView,
    api: ModelApi,
    hosted_web_search: bool,
)
    requires
        b == (ResolvedView { api_key: b.api_key, ..a }),
    ensures
        api_client(id, a, api, hosted_web_search) matches Ok(x) ==> (api_client(
            id,
            b,
            api,
            hosted_web_search,
        ) matches Ok(y) ==> x.config_sha256 == y.config_sha256),
{
}

} // verus!
