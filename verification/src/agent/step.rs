//! The parts of one model step: its budget, its cache key, and how it is shown.

use crate::agent::error::{AgentError, AgentErrorView};
use crate::agent::history::{cap, estimate_text_tokens, text_tokens};
use crate::digest::{is_hex, sha256_hex_of_text, sha256_text};
use crate::json::{
    field, group_json, json_text, member_views, put, text_field, views, Json, JsonView,
};
use crate::model::metadata::{metadata_json, metadata_view, optional_text, owned_json};
use crate::protocol::model::{
    tool_views, ModelRequest, ModelRequestMetadata, PromptCacheConfig, PromptCacheStrategy,
    RequestView, ToolDefinition, ToolView,
};
use crate::text::{maybe, occurs, same, stands_at};
use vstd::prelude::*;
use vstd::utf8::encode_utf8;

verus! {

broadcast use group_json;

/// What a cache key is made of.
pub open spec fn cache_key_document(session: Option<Seq<char>>, model: Seq<char>) -> JsonView {
    JsonView::Object(
        seq![
            ("model"@, JsonView::Text(model)),
            ("namespace"@, JsonView::Text("papermachine-session"@)),
            ("session"@, optional_text(session)),
        ],
    )
}

/// The digits that a cache key begins with.
pub open spec fn cache_key_digits(session: Option<Seq<char>>, model: Seq<char>) -> Seq<char> {
    sha256_text(encode_utf8(json_text(cache_key_document(session, model)))).take(32)
}

/// The cache key of a Session's requests to a model. It routes requests to a cache and says nothing
/// of their content, so that it stays the same across actions, tools and compaction.
pub open spec fn cache_key(session: Option<Seq<char>>, model: Seq<char>) -> Seq<char> {
    cache_key_digits(session, model) + "-session"@
}

/// The cache key of an Agent's requests to a model.
pub open spec fn agent_cache_key(agent: Seq<char>, model: Seq<char>) -> Seq<char> {
    cache_key_digits(Some(agent), model) + "-agent"@
}

/// Whether a text is thirty-two hexadecimal digits and an ending.
pub open spec fn key_form(key: Seq<char>, ending: Seq<char>) -> bool {
    &&& key.len() == 32 + ending.len()
    &&& forall|i: int| 0 <= i < 32 ==> is_hex(#[trigger] key[i])
    &&& key.skip(32) == ending
}

fn cache_key_start(session: &Option<String>, model: &str) -> (r: String)
    ensures
        r@ == cache_key_digits(maybe(*session), model@),
        r@.len() == 32,
        forall|i: int| 0 <= i < 32 ==> is_hex(#[trigger] r@[i]),
{
    let mut o: Vec<(String, Json)> = Vec::new();
    put(&mut o, "model", Json::text(model));
    put(&mut o, "namespace", Json::text("papermachine-session"));
    put(&mut o, "session", owned_json(session));
    assert(member_views(o@) =~= cache_key_document(maybe(*session), model@)->Object_0);
    let hash = sha256_hex_of_text(Json::Object(o).render().as_str());
    let r = hash.as_str().substring_char(0, 32).to_owned();
    assert(r@ =~= hash@.take(32));
    r
}

/// Configures the prompt cache of a request.
pub fn prompt_cache_config(request: &ModelRequest) -> (r: PromptCacheConfig)
    ensures
        r.key@ == cache_key(maybe(request.transport_session_key), request.model@),
        r.strategy == PromptCacheStrategy::Auto,
        key_form(r.key@, "-session"@),
{
    let mut key = cache_key_start(&request.transport_session_key, request.model.as_str());
    let ghost digits = key@;
    key.append("-session");
    assert(key@.skip(32) =~= "-session"@);
    assert forall|i: int| 0 <= i < 32 implies is_hex(#[trigger] key@[i]) by {
        assert(key@[i] == digits[i]);
    }
    PromptCacheConfig { key, strategy: PromptCacheStrategy::Auto }
}

/// Configures the prompt cache of an Agent's requests to a model.
pub fn agent_cache_config(agent: &str, model: &str) -> (r: PromptCacheConfig)
    ensures
        r.key@ == agent_cache_key(agent@, model@),
        r.strategy == PromptCacheStrategy::Auto,
        key_form(r.key@, "-agent"@),
{
    let mut key = cache_key_start(&Some(agent.to_owned()), model);
    let ghost digits = key@;
    key.append("-agent");
    assert(key@.skip(32) =~= "-agent"@);
    assert forall|i: int| 0 <= i < 32 implies is_hex(#[trigger] key@[i]) by {
        assert(key@[i] == digits[i]);
    }
    PromptCacheConfig { key, strategy: PromptCacheStrategy::Auto }
}

/// Requests of one Session to one model share their cache key, whatever else they hold.
pub proof fn law_cache_keys_are_stable(a: RequestView, b: RequestView)
    requires
        a.transport_session_key == b.transport_session_key,
        a.model == b.model,
    ensures
        cache_key(a.transport_session_key, a.model) == cache_key(b.transport_session_key, b.model),
{
}

/// Sessions that differ have cache keys made of documents that differ. The keys differ wherever the
/// digests of these documents do not begin alike.
pub proof fn law_cache_keys_are_of_the_session(a: Seq<char>, b: Seq<char>, model: Seq<char>)
    requires
        a != b,
    ensures
        cache_key_document(Some(a), model) != cache_key_document(Some(b), model),
        cache_key_digits(Some(a), model) != cache_key_digits(Some(b), model) ==> cache_key(
            Some(a),
            model,
        ) != cache_key(Some(b), model),
{
    let x = cache_key_document(Some(a), model)->Object_0;
    let y = cache_key_document(Some(b), model)->Object_0;
    assert(x[2].1 == JsonView::Text(a));
    assert(y[2].1 == JsonView::Text(b));
    let c = cache_key_digits(Some(a), model);
    let d = cache_key_digits(Some(b), model);
    let end = "-session"@;
    if c + end == d + end {
        assert((c + end).len() == (d + end).len());
        assert((c + end).take(c.len() as int) =~= c);
        assert((d + end).take(d.len() as int) =~= d);
    }
}

/// A cache key does not hold the name of its Session, where that name has a hyphen and something
/// other than hexadecimal digits before it.
pub proof fn law_cache_keys_hide_the_session(key: Seq<char>, session: Seq<char>, i: int, j: int)
    requires
        key_form(key, "-session"@),
        0 <= i < j < session.len(),
        !is_hex(session[i]),
        session[j] == '-',
    ensures
        !occurs(key, session),
{
    reveal_strlit("-session");
    if occurs(key, session) {
        let p = choose|p: int| #[trigger] stands_at(key, session, p);
        assert(stands_at(key, session, p));
        let found = key.subrange(p, p + session.len());
        assert(found[j] == key[p + j]);
        assert(found[i] == key[p + i]);
        if p + j < 32 {
            assert(is_hex(key[p + j]));
        } else {
            assert(key.skip(32)[p + j - 32] == key[p + j]);
            assert(p + j == 32);
            assert(is_hex(key[p + i]));
        }
    }
}

/// A number held between two others.
pub open spec fn clamped(n: int, low: int, high: int) -> int {
    if n < low {
        low
    } else if n > high {
        high
    } else {
        n
    }
}

fn clamp(n: usize, low: usize, high: usize) -> (r: usize)
    ensures
        r == clamped(n as int, low as int, high as int),
{
    if n < low {
        low
    } else if n > high {
        high
    } else {
        n
    }
}

/// The estimated tokens of a tool's definition.
pub open spec fn tool_tokens(tool: ToolView) -> int {
    cap(
        cap(
            cap(text_tokens(tool.name) + text_tokens(tool.description)) + text_tokens(
                json_text(tool.input_schema),
            ),
        ) + 16,
    )
}

/// The estimated tokens of some definitions.
pub open spec fn tools_tokens(tools: Seq<ToolView>) -> int
    decreases tools.len(),
{
    if tools.len() == 0 {
        0
    } else {
        cap(tools_tokens(tools.drop_last()) + tool_tokens(tools.last()))
    }
}

/// The tokens of a window that the history must leave free: for the instructions and tools, for the
/// output, and for what the estimate misses.
pub open spec fn reserved_tokens(
    window: int,
    instructions: Seq<char>,
    tools: Seq<ToolView>,
) -> int {
    cap(
        cap(
            cap(text_tokens(instructions) + tools_tokens(tools)) + clamped(
                window / 8,
                1024,
                16384,
            ),
        ) + clamped(window / 20, 256, 4096),
    )
}

/// How many tokens of a window are left for the history.
pub fn history_token_budget(
    model_context_window: usize,
    instructions: &str,
    tools: &Vec<ToolDefinition>,
) -> (r: Result<usize, AgentError>)
    ensures
        ({
            let reserved = reserved_tokens(
                model_context_window as int,
                instructions@,
                tool_views(tools@),
            );
            match r {
                Ok(budget) => reserved <= model_context_window && budget == model_context_window
                    - reserved,
                Err(e) => reserved > model_context_window && e@
                    == (AgentErrorView::ContextWindowTooSmall {
                    window: model_context_window,
                    reserved: reserved as usize,
                }),
            }
        }),
{
    let ghost all = tool_views(tools@);
    let mut tool_total: usize = 0;
    let mut i: usize = 0;
    assert(all.take(0) =~= Seq::<ToolView>::empty());
    while i < tools.len()
        invariant
            i <= tools.len(),
            all == tool_views(tools@),
            tool_total == tools_tokens(all.take(i as int)),
        decreases tools.len() - i,
    {
        assert(all.take(i + 1).drop_last() =~= all.take(i as int));
        assert(all.take(i + 1).last() == tools@[i as int]@);
        let tool = &tools[i];
        let size = estimate_text_tokens(tool.name.as_str()).saturating_add(
            estimate_text_tokens(tool.description.as_str()),
        ).saturating_add(estimate_text_tokens(tool.input_schema.render().as_str())).saturating_add(
            16,
        );
        tool_total = tool_total.saturating_add(size);
        i = i + 1;
    }
    assert(all.take(all.len() as int) =~= all);
    let fixed = estimate_text_tokens(instructions).saturating_add(tool_total);
    let output_reserve = clamp(model_context_window / 8, 1024, 16384);
    let safety_reserve = clamp(model_context_window / 20, 256, 4096);
    let reserved = fixed.saturating_add(output_reserve).saturating_add(safety_reserve);
    if reserved > model_context_window {
        return Err(
            AgentError::ContextWindowTooSmall { window: model_context_window, reserved },
        );
    }
    Ok(model_context_window - reserved)
}

/// The value under a key, or another where there is none.
pub open spec fn field_or(item: JsonView, key: Seq<char>, default: JsonView) -> JsonView {
    match field(item, key) {
        Some(v) => v,
        None => default,
    }
}

fn field_or_null(item: &Json, key: &str) -> (r: Json)
    ensures
        r@ == field_or(item@, key@, JsonView::Null),
{
    match item.get(key) {
        Some(v) => v.clone(),
        None => Json::Null,
    }
}

/// What is shown of a response item. Encrypted reasoning and identifiers are left out.
pub open spec fn shown_item(item: JsonView) -> JsonView {
    let kind = match text_field(item, "type"@) {
        Some(kind) => kind,
        None => "unknown"@,
    };
    if kind == "reasoning"@ {
        JsonView::Object(
            seq![
                ("summary"@, field_or(item, "summary"@, JsonView::Array(Seq::empty()))),
                ("type"@, JsonView::Text("reasoning"@)),
            ],
        )
    } else if kind == "message"@ {
        JsonView::Object(
            seq![
                ("content"@, field_or(item, "content"@, JsonView::Null)),
                ("type"@, JsonView::Text("message"@)),
            ],
        )
    } else if kind == "function_call"@ {
        JsonView::Object(
            seq![
                ("arguments"@, field_or(item, "arguments"@, JsonView::Null)),
                ("name"@, field_or(item, "name"@, JsonView::Null)),
                ("type"@, JsonView::Text("function_call"@)),
            ],
        )
    } else {
        JsonView::Object(seq![("type"@, JsonView::Text(kind))])
    }
}

fn show_item(item: &Json) -> (r: Json)
    ensures
        r@ == shown_item(item@),
{
    let kind = match item.text_at("type") {
        Some(kind) => kind,
        None => "unknown",
    };
    let mut o: Vec<(String, Json)> = Vec::new();
    if same(kind, "reasoning") {
        let summary = match item.get("summary") {
            Some(v) => v.clone(),
            None => {
                let none: Vec<Json> = Vec::new();
                assert(views(none@) =~= Seq::<JsonView>::empty());
                Json::Array(none)
            },
        };
        put(&mut o, "summary", summary);
        put(&mut o, "type", Json::text("reasoning"));
    } else if same(kind, "message") {
        put(&mut o, "content", field_or_null(item, "content"));
        put(&mut o, "type", Json::text("message"));
    } else if same(kind, "function_call") {
        put(&mut o, "arguments", field_or_null(item, "arguments"));
        put(&mut o, "name", field_or_null(item, "name"));
        put(&mut o, "type", Json::text("function_call"));
    } else {
        put(&mut o, "type", Json::text(kind));
    }
    assert(member_views(o@) =~= shown_item(item@)->Object_0);
    Json::Object(o)
}

/// What is shown of a sample.
pub open spec fn shown_output(
    message: Seq<char>,
    items: Seq<JsonView>,
    metadata: Option<ModelRequestMetadata>,
) -> JsonView {
    JsonView::Object(
        seq![
            (
                "assistant_message"@,
                if message.len() == 0 {
                    JsonView::Null
                } else {
                    JsonView::Text(message)
                },
            ),
            (
                "request"@,
                match metadata {
                    Some(m) => metadata_view(m),
                    None => JsonView::Null,
                },
            ),
            (
                "response_items"@,
                JsonView::Array(items.map_values(|i: JsonView| shown_item(i))),
            ),
        ],
    )
}

/// Shows a sample.
pub fn inspectable_model_output(
    message: &str,
    response_items: &Vec<Json>,
    request_metadata: &Option<ModelRequestMetadata>,
) -> (r: Json)
    ensures
        r@ == shown_output(message@, views(response_items@), *request_metadata),
{
    let ghost shown = views(response_items@).map_values(|i: JsonView| shown_item(i));
    let mut items: Vec<Json> = Vec::new();
    let mut i: usize = 0;
    assert(views(items@) =~= shown.take(0));
    while i < response_items.len()
        invariant
            i <= response_items.len(),
            shown == views(response_items@).map_values(|i: JsonView| shown_item(i)),
            views(items@) == shown.take(i as int),
        decreases response_items.len() - i,
    {
        let item = show_item(&response_items[i]);
        items.push(item);
        assert(views(items@) =~= shown.take(i + 1));
        i = i + 1;
    }
    assert(views(items@) =~= shown);
    let mut o: Vec<(String, Json)> = Vec::new();
    put(
        &mut o,
        "assistant_message",
        if message.is_empty() {
            Json::Null
        } else {
            Json::text(message)
        },
    );
    put(
        &mut o,
        "request",
        match request_metadata {
            Some(m) => metadata_json(m),
            None => Json::Null,
        },
    );
    put(&mut o, "response_items", Json::Array(items));
    assert(member_views(o@) =~= shown_output(
        message@,
        views(response_items@),
        *request_metadata,
    )->Object_0);
    Json::Object(o)
}

/// Nothing of a reasoning item is shown but its summary: two that differ elsewhere look alike.
pub proof fn law_reasoning_shows_its_summary_alone(a: JsonView, b: JsonView)
    requires
        text_field(a, "type"@) == Some("reasoning"@),
        text_field(b, "type"@) == Some("reasoning"@),
        field(a, "summary"@) == field(b, "summary"@),
    ensures
        shown_item(a) == shown_item(b),
{
}

} // verus!
