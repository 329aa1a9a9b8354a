//! What is told of a request besides its answer.

use crate::json::{field, items_field, text_field, JsonView};
use crate::model::chat::chat_told;
use crate::model::endpoint::{socket_endpoint, url_with_scheme, UrlView};
use crate::model::http::http_told;
use crate::model::laws::lemma_lookup_at;
use crate::model::providers::{is_client, ClientView};
use crate::model::responses::{breakpoint, probe_members};
use crate::model::route::{direct_fault, direct_identity, direct_route};
use crate::model::router::{annotated, ProfileView};
use crate::model::websocket::{socket_metadata, Continuation};
use crate::protocol::model::{
    ModelEvent, ModelRequestMetadata, ModelTransport, PromptCacheMode, ReasoningEffort, RequestView,
};
use crate::text::{maybe, trimmed};
use vstd::prelude::*;

verus! {

/// What is told of a request is the provider and the model that it went to, the key that it was cached
/// under, how it went, and whether it continued another. Over HTTP none does, and over a connection one
/// does exactly if it sent only what was new.
pub proof fn law_what_is_told_of_requests(
    m: ModelRequestMetadata,
    provider: Seq<char>,
    request: RequestView,
    mode: PromptCacheMode,
    fallback: Option<Seq<char>>,
    c: Continuation,
)
    ensures
        chat_told(m, provider, request) || http_told(m, provider, request, mode, fallback)
            || socket_metadata(m, provider, request, mode, c) ==> {
            &&& maybe(m.provider) == Some(provider)
            &&& maybe(m.upstream_model) == Some(request.model)
            &&& maybe(m.prompt_cache_key) == (match request.prompt_cache {
                Some(cache) => Some(cache.0),
                None => None,
            })
            &&& m.prompt_cache_breakpoint <==> m.prompt_cache_mode == PromptCacheMode::Explicit
        },
        chat_told(m, provider, request) ==> m.transport == ModelTransport::HttpSse
            && m.prompt_cache_mode == PromptCacheMode::Implicit && !m.used_previous_response_id
            && maybe(m.api) == Some("open_ai_chat_completions"@)
            && m.continuation_miss_reason is Some && m.websocket_fallback_reason is None,
        http_told(m, provider, request, mode, fallback) ==> m.transport == ModelTransport::HttpSse
            && m.prompt_cache_mode == mode && !m.used_previous_response_id
            && m.continuation_miss_reason is Some && maybe(m.websocket_fallback_reason) == fallback,
        socket_metadata(m, provider, request, mode, c) ==> m.transport
            == ModelTransport::ResponsesWebsocket && m.prompt_cache_mode == mode && (
        m.used_previous_response_id <==> c is Extends) && (c matches Continuation::Miss(reason)
            ==> maybe(m.continuation_miss_reason) == Some(reason)) && (c is Extends
            ==> m.continuation_miss_reason is None) && m.websocket_fallback_reason is None,
{
}

/// A router says of every answer which profile, provider, API and model it came from, keeps all else that
/// was told of the request, and changes no other event.
pub proof fn law_routers_say_where_answers_came_from(
    event: ModelEvent,
    told: ModelEvent,
    profile: ProfileView,
    id: Seq<char>,
)
    requires
        annotated(event, told, profile, id),
    ensures
        !(event is RequestMetadata) ==> told == event,
        event matches ModelEvent::RequestMetadata { metadata } ==> (
        told matches ModelEvent::RequestMetadata { metadata: m } && maybe(m.model_profile) == Some(
            id,
        ) && maybe(m.provider) == Some(profile.provider) && maybe(m.upstream_model) == Some(
            profile.model,
        ) && maybe(m.api) == Some(profile.api.text()) && m.transport == metadata.transport
            && m.prompt_cache_mode == metadata.prompt_cache_mode && m.prompt_cache_key
            == metadata.prompt_cache_key && m.used_previous_response_id
            == metadata.used_previous_response_id && m.continuation_miss_reason
            == metadata.continuation_miss_reason && m.websocket_fallback_reason
            == metadata.websocket_fallback_reason),
{
}

/// A client has the key and the settings of its provider.
pub proof fn law_clients_have_their_settings(
    c: crate::model::providers::ApiClient,
    v: ClientView,
)
    requires
        is_client(c, v),
    ensures
        match c.config {
            crate::model::providers::ApiClientConfig::Responses(config) => {
                &&& config.api_key@ == v.settings.api_key
                &&& config.endpoint@ == v.endpoint
                &&& config.provider_id@ == v.provider
                &&& config.max_request_retries == v.settings.max_request_retries
                &&& config.request_timeout_seconds == v.settings.request_timeout_seconds
                &&& config.stream_idle_timeout_seconds == v.settings.stream_idle_timeout_seconds
                &&& config.store_responses == v.settings.store_responses
                &&& config.responses_websockets == v.settings.responses_websockets
                &&& config.prompt_cache_mode == v.settings.prompt_cache_mode
                &&& config.reasoning_effort == v.settings.reasoning_effort
                &&& config.hosted_web_search == v.hosted_web_search
                &&& maybe(config.organization) == v.settings.organization
                &&& maybe(config.project) == v.settings.project
            },
            crate::model::providers::ApiClientConfig::Chat(config) => {
                &&& config.api_key@ == v.settings.api_key
                &&& config.endpoint@ == v.endpoint
                &&& config.provider_id@ == v.provider
                &&& config.max_request_retries == v.settings.max_request_retries
                &&& config.request_timeout_seconds == v.settings.request_timeout_seconds
                &&& config.stream_idle_timeout_seconds == v.settings.stream_idle_timeout_seconds
                &&& config.reasoning_effort == v.settings.reasoning_effort
                &&& config.compatibility == v.settings.chat_compatibility
                &&& maybe(config.organization) == v.settings.organization
                &&& maybe(config.project) == v.settings.project
            },
        },
{
}

/// A model that is called by its own name is its own profile. The route is identified by all that it is,
/// and is refused exactly if the name is blank or the window has no room.
pub proof fn law_direct_routes_are_the_model(
    profile: Seq<char>,
    effort: Option<ReasoningEffort>,
    window: usize,
    hosted_web_search: bool,
)
    ensures
        ({
            let r = direct_route(profile, effort, window, hosted_web_search);
            let j = direct_identity(profile, window, hosted_web_search, effort);
            &&& r.profile == profile && r.upstream_model == profile && r.context_window == window
            &&& r.reasoning_effort == effort
            &&& r.capabilities.hosted_web_search == hosted_web_search
            &&& text_field(j, "profile"@) == Some(profile)
            &&& text_field(j, "upstream_model"@) == Some(profile)
            &&& field(j, "context_window"@) == Some(JsonView::Integer(window as int))
            &&& effort matches Some(e) ==> text_field(j, "reasoning_effort"@) == Some(e.text())
            &&& crate::json::field2(j, "capabilities"@, "hosted_web_search"@) == Some(
                JsonView::Bool(hosted_web_search),
            )
        }),
        direct_fault(profile, window) is None <==> trimmed(profile).len() > 0 && window >= 4096,
{
    reveal_strlit("context_window");
    reveal_strlit("capabilities");
    reveal_strlit("profile");
    reveal_strlit("provider");
    reveal_strlit("reasoning_effort");
    reveal_strlit("upstream_model");
    assert("context_window"@.len() == 14);
    assert("capabilities"@.len() == 12);
    assert("profile"@.len() == 7);
    assert("provider"@.len() == 8);
    assert("reasoning_effort"@.len() == 16);
    assert("upstream_model"@.len() == 14);
    assert("upstream_model"@[0] != "context_window"@[0]);
    let made = direct_identity(profile, window, hosted_web_search, effort)->Object_0;
    lemma_lookup_at(made, "capabilities"@, 0);
    lemma_lookup_at(made, "context_window"@, 1);
    lemma_lookup_at(made, "profile"@, 2);
    lemma_lookup_at(made, "provider"@, 3);
    lemma_lookup_at(made, "reasoning_effort"@, 4);
    lemma_lookup_at(made, "upstream_model"@, 5);
    lemma_lookup_at(made[0].1->Object_0, "hosted_web_search"@, 0);
}

/// The endpoint of a connection is that of the requests with the scheme of connections, and there is none
/// exactly if the requests do not go over HTTP or the scheme cannot be set.
pub proof fn law_connections_go_where_requests_go(endpoint: UrlView)
    ensures
        endpoint.scheme == "https"@ ==> (socket_endpoint(endpoint) matches Ok(url)
            ==> url_with_scheme(endpoint.text, "wss"@) == Some(url)),
        endpoint.scheme == "http"@ ==> (socket_endpoint(endpoint) matches Ok(url)
            ==> url_with_scheme(endpoint.text, "ws"@) == Some(url)),
        endpoint.scheme != "http"@ && endpoint.scheme != "https"@ ==> socket_endpoint(endpoint)
            is Err,
        endpoint.scheme == "https"@ && url_with_scheme(endpoint.text, "wss"@) is Some
            ==> socket_endpoint(endpoint) is Ok,
        endpoint.scheme == "http"@ && url_with_scheme(endpoint.text, "ws"@) is Some
            ==> socket_endpoint(endpoint) is Ok,
{
    crate::laws::law_connections_keep_the_scheme(endpoint.scheme);
}

/// The two requests that find out whether a provider takes cache marks differ in nothing but the marks:
/// both go to the model, under one key, with the same messages, store nothing and do not stream.
pub proof fn law_probes_differ_in_the_marks(model: Seq<char>)
    ensures
        ({
            let marked = JsonView::Object(probe_members(model, true));
            let bare = JsonView::Object(probe_members(model, false));
            &&& text_field(marked, "model"@) == Some(model)
            &&& text_field(bare, "model"@) == Some(model)
            &&& field(marked, "prompt_cache_key"@) == field(bare, "prompt_cache_key"@)
            &&& field(marked, "prompt_cache_options"@) is Some
            &&& field(bare, "prompt_cache_options"@) is None
            &&& field(marked, "store"@) == Some(JsonView::Bool(false))
            &&& field(bare, "store"@) == Some(JsonView::Bool(false))
            &&& field(marked, "stream"@) == Some(JsonView::Bool(false))
            &&& field(bare, "stream"@) == Some(JsonView::Bool(false))
            &&& items_field(marked, "input"@) matches Some(a) && items_field(bare, "input"@)
                matches Some(b) && a.len() == 2 && b.len() == 2 && a[1] == b[1] && a[0] != b[0]
        }),
{
    lemma_probe(model, true);
    lemma_probe(model, false);
    let a = (probe_members(model, true)[0].1->Array_0)[0];
    let b = (probe_members(model, false)[0].1->Array_0)[0];
    assert(a != b) by {
        let x = ((a->Object_0)[0].1->Array_0)[0]->Object_0;
        let y = ((b->Object_0)[0].1->Array_0)[0]->Object_0;
        assert(x.len() == 3);
        assert(y.len() == 2);
    }
}

proof fn lemma_probe(model: Seq<char>, marked: bool)
    ensures
        ({
            let made = JsonView::Object(probe_members(model, marked));
            let list = probe_members(model, marked);
            &&& field(made, "input"@) == Some(list[0].1)
            &&& field(made, "model"@) == Some(list[2].1)
            &&& field(made, "prompt_cache_key"@) == Some(list[3].1)
            &&& field(made, "prompt_cache_options"@) == (if marked {
                Some(breakpoint())
            } else {
                None
            })
            &&& field(made, "store"@) == Some(JsonView::Bool(false))
            &&& field(made, "stream"@) == Some(JsonView::Bool(false))
        }),
{
    reveal_strlit("instructions");
    reveal_strlit("input");
    reveal_strlit("model");
    reveal_strlit("prompt_cache_key");
    reveal_strlit("prompt_cache_options");
    reveal_strlit("store");
    reveal_strlit("stream");
    assert("instructions"@.len() == 12);
    assert("input"@.len() == 5);
    assert("model"@.len() == 5);
    assert("prompt_cache_key"@.len() == 16);
    assert("prompt_cache_options"@.len() == 20);
    assert("store"@.len() == 5);
    assert("stream"@.len() == 6);
    assert("model"@[0] != "input"@[0]);
    assert("store"@[0] != "input"@[0]);
    assert("store"@[0] != "model"@[0]);
    let made = probe_members(model, marked);
    let n: int = if marked {
        1
    } else {
        0
    };
    assert(made.len() == 6 + n);
    assert(made[4 + n] == ("store"@, JsonView::Bool(false)));
    assert(made[5 + n] == ("stream"@, JsonView::Bool(false)));
    if marked {
        assert(made[4] == ("prompt_cache_options"@, breakpoint()));
    }
    lemma_lookup_at(made, "input"@, 0);
    lemma_lookup_at(made, "model"@, 2);
    lemma_lookup_at(made, "prompt_cache_key"@, 3);
    if marked {
        lemma_lookup_at(made, "prompt_cache_options"@, 4);
    } else {
        lemma_lookup_at(made, "prompt_cache_options"@, 6);
    }
    lemma_lookup_at(made, "store"@, 4 + n);
    lemma_lookup_at(made, "stream"@, 5 + n);
}

} // verus!
