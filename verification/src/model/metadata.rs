//! How a request's metadata is shown.

use crate::json::{group_json, member_views, put, Json, JsonView};
use crate::protocol::model::{ModelRequestMetadata, ReasoningEffort};
use crate::text::maybe;
use vstd::prelude::*;

verus! {

broadcast use group_json;

/// A text that may be missing, as JSON.
pub open spec fn optional_text(s: Option<Seq<char>>) -> JsonView {
    match s {
        Some(s) => JsonView::Text(s),
        None => JsonView::Null,
    }
}

/// Writes a text that may be missing.
pub fn optional_json(s: Option<&str>) -> (r: Json)
    ensures
        r@ == optional_text(crate::text::maybe_str(s)),
{
    match s {
        Some(s) => Json::text(s),
        None => Json::Null,
    }
}

/// Writes a text that may be missing.
pub fn owned_json(s: &Option<String>) -> (r: Json)
    ensures
        r@ == optional_text(maybe(*s)),
{
    match s {
        Some(s) => Json::text(s.as_str()),
        None => Json::Null,
    }
}

/// Metadata as JSON.
pub open spec fn metadata_view(m: ModelRequestMetadata) -> JsonView {
    JsonView::Object(
        seq![
            ("api"@, optional_text(maybe(m.api))),
            ("continuation_miss_reason"@, optional_text(maybe(m.continuation_miss_reason))),
            ("model_profile"@, optional_text(maybe(m.model_profile))),
            ("prompt_cache_breakpoint"@, JsonView::Bool(m.prompt_cache_breakpoint)),
            ("prompt_cache_key"@, optional_text(maybe(m.prompt_cache_key))),
            ("prompt_cache_mode"@, JsonView::Text(m.prompt_cache_mode.text())),
            ("provider"@, optional_text(maybe(m.provider))),
            ("transport"@, JsonView::Text(m.transport.text())),
            ("upstream_model"@, optional_text(maybe(m.upstream_model))),
            ("used_previous_response_id"@, JsonView::Bool(m.used_previous_response_id)),
            ("websocket_fallback_reason"@, optional_text(maybe(m.websocket_fallback_reason))),
        ],
    )
}

/// Writes metadata.
pub fn metadata_json(m: &ModelRequestMetadata) -> (r: Json)
    ensures
        r@ == metadata_view(*m),
{
    let mut o: Vec<(String, Json)> = Vec::new();
    put(&mut o, "api", owned_json(&m.api));
    put(&mut o, "continuation_miss_reason", owned_json(&m.continuation_miss_reason));
    put(&mut o, "model_profile", owned_json(&m.model_profile));
    put(&mut o, "prompt_cache_breakpoint", Json::Bool(m.prompt_cache_breakpoint));
    put(&mut o, "prompt_cache_key", owned_json(&m.prompt_cache_key));
    put(&mut o, "prompt_cache_mode", Json::text(m.prompt_cache_mode.as_str()));
    put(&mut o, "provider", owned_json(&m.provider));
    put(&mut o, "transport", Json::text(m.transport.as_str()));
    put(&mut o, "upstream_model", owned_json(&m.upstream_model));
    put(&mut o, "used_previous_response_id", Json::Bool(m.used_previous_response_id));
    put(&mut o, "websocket_fallback_reason", owned_json(&m.websocket_fallback_reason));
    assert(member_views(o@) =~= metadata_view(*m)->Object_0);
    Json::Object(o)
}

/// An effort that may be missing, as JSON.
pub open spec fn effort_view(effort: Option<ReasoningEffort>) -> JsonView {
    match effort {
        Some(e) => JsonView::Text(e.text()),
        None => JsonView::Null,
    }
}

/// Writes an effort that may be missing.
pub fn effort_json(effort: Option<ReasoningEffort>) -> (r: Json)
    ensures
        r@ == effort_view(effort),
{
    match effort {
        Some(e) => Json::text(e.as_str()),
        None => Json::Null,
    }
}

} // verus!
