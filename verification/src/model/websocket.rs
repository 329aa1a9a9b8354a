//! Requests over a connection that remembers the last one, so that only what is new is sent.

use crate::json::{
    alike, field2, group_json, insert_member, items_field, json_parsed, lemma_alike_reflexive,
    lemma_views_push, read_text, remove_member, text_in, views, with, without, Json, JsonView,
};
use crate::model::error::{ModelError, ModelErrorView};
use crate::model::responses::{
    body_head, body_members, body_options, body_tail, event_of, event_type, parse_event_data,
    read_view, request_body, sanitize_response_item, sanitized, OpenAiReasoningEffort,
    OpenAiResponsesConfig,
};
use crate::protocol::model::{
    ModelEvent, ModelEventView, ModelRequest, ModelRequestMetadata, ModelTransport, PromptCacheMode,
    RequestView,
};
use crate::text::{decimal, maybe, number, same};
use vstd::prelude::*;
use vstd::utf8::{decode_utf8, valid_utf8};

verus! {

broadcast use group_json;

/// What a connection remembers of the request that it served last.
#[derive(Debug)]
pub struct SocketMemory {
    pub last_request_properties: Json,
    pub last_request_input: Vec<Json>,
    pub last_response_id: String,
    pub last_response_items: Vec<Json>,
}

/// The mathematical value of a [`SocketMemory`].
pub ghost struct MemoryView {
    pub properties: JsonView,
    pub input: Seq<JsonView>,
    pub response_id: Seq<char>,
    pub items: Seq<JsonView>,
}

impl View for SocketMemory {
    type V = MemoryView;

    open spec fn view(&self) -> MemoryView {
        MemoryView {
            properties: self.last_request_properties@,
            input: views(self.last_request_input@),
            response_id: self.last_response_id@,
            items: views(self.last_response_items@),
        }
    }
}

impl SocketMemory {
    /// What a new connection remembers: nothing.
    pub fn fresh() -> (r: Self)
        ensures
            r@ == (MemoryView {
                properties: JsonView::Null,
                input: Seq::empty(),
                response_id: Seq::empty(),
                items: Seq::empty(),
            }),
    {
        let r = SocketMemory {
            last_request_properties: Json::Null,
            last_request_input: Vec::new(),
            last_response_id: String::new(),
            last_response_items: Vec::new(),
        };
        assert(r@.input =~= Seq::<JsonView>::empty());
        assert(r@.items =~= Seq::<JsonView>::empty());
        r
    }
}

/// The members of a request over a connection: it always streams, which is not said.
pub open spec fn socket_members(members: Seq<(Seq<char>, JsonView)>) -> Seq<(Seq<char>, JsonView)> {
    with(
        without(without(members, "stream"@), "background"@),
        "type"@,
        JsonView::Text("response.create"@),
    )
}

/// The members of a request over a connection.
pub open spec fn socket_body(
    request: RequestView,
    effort: Option<OpenAiReasoningEffort>,
    store: bool,
    mode: PromptCacheMode,
) -> Seq<(Seq<char>, JsonView)> {
    socket_members(body_members(request, effort, store, mode))
}

/// Writes the body of a request over a connection.
pub fn websocket_request_body(
    request: &ModelRequest,
    config: &OpenAiResponsesConfig,
    prompt_cache_mode: PromptCacheMode,
) -> (r: Json)
    ensures
        r@ == JsonView::Object(
            socket_body(
                request@,
                config.reasoning_effort,
                config.store_responses,
                prompt_cache_mode,
            ),
        ),
{
    match request_body(request, config, prompt_cache_mode) {
        Json::Object(members) => {
            let mut members = remove_member(remove_member(members, "stream"), "background");
            insert_member(&mut members, "type", Json::text("response.create"));
            Json::Object(members)
        },
        other => other,
    }
}

/// The members on which a continued request has to agree with the one before.
pub open spec fn lasting(members: Seq<(Seq<char>, JsonView)>) -> Seq<(Seq<char>, JsonView)> {
    without(
        without(
            without(without(without(members, "input"@), "type"@), "previous_response_id"@),
            "tool_choice"@,
        ),
        "parallel_tool_calls"@,
    )
}

/// What a continued request has to agree on with the one before.
pub open spec fn lasting_properties(body: JsonView) -> JsonView {
    match body {
        JsonView::Object(members) => JsonView::Object(lasting(members)),
        other => other,
    }
}

/// Finds what a continued request has to agree on with the one before. The choice of tools and
/// their number at a time only control the next response, so they are left out.
pub fn websocket_request_properties(body: &Json) -> (r: Json)
    ensures
        r@ == lasting_properties(body@),
{
    match body.clone() {
        Json::Object(members) => {
            let members = remove_member(remove_member(members, "input"), "type");
            let members = remove_member(members, "previous_response_id");
            Json::Object(
                remove_member(remove_member(members, "tool_choice"), "parallel_tool_calls"),
            )
        },
        other => other,
    }
}

/// Whether a list begins with another, item for item.
pub open spec fn starts_alike(full: Seq<JsonView>, start: Seq<JsonView>) -> bool {
    &&& start.len() <= full.len()
    &&& forall|i: int| 0 <= i < start.len() ==> alike(#[trigger] start[i], full[i])
}

/// Whether a request continues the one before.
pub ghost enum Continuation {
    /// It does not, for a reason.
    Miss(Seq<char>),
    /// It does, and these items are new.
    Extends(Seq<JsonView>),
}

/// Whether a request continues what a connection remembers.
pub open spec fn continuation(
    memory: MemoryView,
    properties: JsonView,
    full: Seq<JsonView>,
) -> Continuation {
    let baseline = memory.input + memory.items;
    if memory.response_id.len() == 0 {
        Continuation::Miss("no_previous_response"@)
    } else if !alike(memory.properties, properties) {
        Continuation::Miss("request_properties_changed"@)
    } else if baseline.len() > usize::MAX {
        Continuation::Miss("history_length_overflow"@)
    } else if full.len() <= baseline.len() {
        Continuation::Miss("history_not_extended"@)
    } else if !starts_alike(full, baseline) {
        Continuation::Miss("history_prefix_mismatch"@)
    } else {
        Continuation::Extends(full.skip(baseline.len() as int))
    }
}

/// How a request relates to the one before.
#[derive(Debug)]
pub struct WebsocketContinuationDecision {
    pub incremental_input: Option<Vec<Json>>,
    pub miss_reason: Option<&'static str>,
}

impl View for WebsocketContinuationDecision {
    type V = (Option<Seq<JsonView>>, Option<Seq<char>>);

    open spec fn view(&self) -> (Option<Seq<JsonView>>, Option<Seq<char>>) {
        (
            match self.incremental_input {
                Some(items) => Some(views(items@)),
                None => None,
            },
            match self.miss_reason {
                Some(reason) => Some(reason@),
                None => None,
            },
        )
    }
}

/// What a continuation is told as.
pub open spec fn told(c: Continuation) -> (Option<Seq<JsonView>>, Option<Seq<char>>) {
    match c {
        Continuation::Miss(reason) => (None, Some(reason)),
        Continuation::Extends(items) => (Some(items), None),
    }
}

fn missed(reason: &'static str) -> (r: WebsocketContinuationDecision)
    ensures
        r@ == told(Continuation::Miss(reason@)),
{
    WebsocketContinuationDecision { incremental_input: None, miss_reason: Some(reason) }
}

/// Decides whether a request continues what a connection remembers.
pub fn websocket_continuation(
    memory: &SocketMemory,
    request_properties: &Json,
    full_input: &Vec<Json>,
) -> (r: WebsocketContinuationDecision)
    ensures
        r@ == told(continuation(memory@, request_properties@, views(full_input@))),
{
    if memory.last_response_id.as_str().is_empty() {
        return missed("no_previous_response");
    }
    if !memory.last_request_properties.alike(request_properties) {
        return missed("request_properties_changed");
    }
    let asked = memory.last_request_input.len();
    let answered = memory.last_response_items.len();
    let baseline_len = match asked.checked_add(answered) {
        Some(n) => n,
        None => {
            return missed("history_length_overflow");
        },
    };
    if full_input.len() <= baseline_len {
        return missed("history_not_extended");
    }
    let ghost baseline = memory@.input + memory@.items;
    let ghost full = views(full_input@);
    let mut i: usize = 0;
    while i < baseline_len
        invariant
            i <= baseline_len,
            baseline_len < full_input@.len(),
            asked == memory.last_request_input@.len(),
            answered == memory.last_response_items@.len(),
            baseline_len == asked + answered,
            baseline == memory@.input + memory@.items,
            full == views(full_input@),
            memory@.response_id.len() > 0,
            alike(memory@.properties, request_properties@),
            forall|k: int| 0 <= k < i ==> alike(#[trigger] baseline[k], full[k]),
        decreases baseline_len - i,
    {
        let previous = if i < asked {
            &memory.last_request_input[i]
        } else {
            &memory.last_response_items[i - asked]
        };
        assert(previous@ == baseline[i as int]);
        if !previous.alike(&full_input[i]) {
            assert(!alike(baseline[i as int], full[i as int]));
            return missed("history_prefix_mismatch");
        }
        i = i + 1;
    }
    let mut rest: Vec<Json> = Vec::new();
    assert(views(rest@) =~= full.subrange(baseline_len as int, baseline_len as int));
    while i < full_input.len()
        invariant
            baseline_len <= i <= full_input@.len(),
            full == views(full_input@),
            views(rest@) == full.subrange(baseline_len as int, i as int),
        decreases full_input.len() - i,
    {
        let item = full_input[i].clone();
        proof {
            lemma_views_push(rest@, item);
        }
        rest.push(item);
        assert(views(rest@) =~= full.subrange(baseline_len as int, i + 1));
        i = i + 1;
    }
    assert(full.subrange(baseline_len as int, full.len() as int) =~= full.skip(
        baseline_len as int,
    ));
    WebsocketContinuationDecision { incremental_input: Some(rest), miss_reason: None }
}

/// A continued request sends what the connection does not remember, and all of that: what it
/// remembers followed by what is sent is the whole input.
pub proof fn law_continuation_sends_the_rest(
    memory: MemoryView,
    properties: JsonView,
    full: Seq<JsonView>,
)
    ensures
        match continuation(memory, properties, full) {
            Continuation::Extends(rest) => {
                let known = full.take(full.len() - rest.len());
                &&& rest.len() > 0
                &&& known.len() == memory.input.len() + memory.items.len()
                &&& starts_alike(known, memory.input + memory.items)
                &&& known + rest == full
            },
            Continuation::Miss(_) => true,
        },
{
    if let Continuation::Extends(rest) = continuation(memory, properties, full) {
        let known = full.take(full.len() - rest.len());
        assert(known + rest =~= full);
        assert forall|i: int| 0 <= i < known.len() implies alike(
            #[trigger] (memory.input + memory.items)[i],
            known[i],
        ) by {
            assert(known[i] == full[i]);
        }
    }
}

/// A request whose input is that of the last one, its answer and something new continues it,
/// whatever the choice of tools, where nothing else changed.
pub proof fn law_longer_history_continues(
    memory: MemoryView,
    properties: JsonView,
    new: Seq<JsonView>,
)
    requires
        memory.response_id.len() > 0,
        alike(memory.properties, properties),
        memory.input.len() + memory.items.len() <= usize::MAX,
        new.len() > 0,
    ensures
        continuation(memory, properties, memory.input + memory.items + new)
            == Continuation::Extends(new),
{
    let baseline = memory.input + memory.items;
    let full = baseline + new;
    assert forall|i: int| 0 <= i < baseline.len() implies alike(#[trigger] baseline[i], full[i]) by {
        assert(full[i] == baseline[i]);
        lemma_alike_reflexive(baseline[i]);
    }
    assert(full.skip(baseline.len() as int) =~= new);
}

/// Whether two lists of members have the same keys, and the same values but for some keys.
pub open spec fn agree(
    a: Seq<(Seq<char>, JsonView)>,
    b: Seq<(Seq<char>, JsonView)>,
    but: Set<Seq<char>>,
) -> bool {
    &&& a.len() == b.len()
    &&& forall|i: int|
        0 <= i < a.len() ==> (#[trigger] a[i]).0 == b[i].0 && (but.contains(a[i].0) || a[i] == b[i])
}

proof fn lemma_agree_without(
    a: Seq<(Seq<char>, JsonView)>,
    b: Seq<(Seq<char>, JsonView)>,
    key: Seq<char>,
    but: Set<Seq<char>>,
)
    requires
        agree(a, b, but),
    ensures
        agree(without(a, key), without(b, key), but.remove(key)),
    decreases a.len(),
{
    if a.len() > 0 {
        assert(a.last() == a[a.len() - 1] && b.last() == b[a.len() - 1]);
        assert(a[a.len() - 1].0 == b[a.len() - 1].0);
        assert forall|i: int| 0 <= i < a.drop_last().len() implies (#[trigger] a.drop_last()[i]).0
            == b.drop_last()[i].0 && (but.contains(a.drop_last()[i].0) || a.drop_last()[i]
            == b.drop_last()[i]) by {
            assert(a.drop_last()[i] == a[i] && b.drop_last()[i] == b[i]);
        }
        lemma_agree_without(a.drop_last(), b.drop_last(), key, but);
    }
}

proof fn lemma_agree_with(
    a: Seq<(Seq<char>, JsonView)>,
    b: Seq<(Seq<char>, JsonView)>,
    key: Seq<char>,
    value: JsonView,
    but: Set<Seq<char>>,
)
    requires
        agree(a, b, but),
    ensures
        agree(with(a, key, value), with(b, key, value), but),
    decreases a.len(),
{
    if a.len() > 0 {
        assert(a[0].0 == b[0].0);
        let ra = a.drop_first();
        let rb = b.drop_first();
        assert forall|i: int| 0 <= i < ra.len() implies (#[trigger] ra[i]).0 == rb[i].0 && (
        but.contains(ra[i].0) || ra[i] == rb[i]) by {
            assert(ra[i] == a[i + 1] && rb[i] == b[i + 1]);
        }
        lemma_agree_with(ra, rb, key, value, but);
        let wa = with(a, key, value);
        let wb = with(b, key, value);
        let sa = with(ra, key, value);
        let sb = with(rb, key, value);
        assert forall|i: int| 0 <= i < wa.len() implies (#[trigger] wa[i]).0 == wb[i].0 && (
        but.contains(wa[i].0) || wa[i] == wb[i]) by {
            if a[0].0 == key {
                if i > 0 {
                    assert(wa[i] == ra[i - 1] && wb[i] == rb[i - 1]);
                }
            } else if crate::text::precedes(key, a[0].0) {
                if i > 0 {
                    assert(wa[i] == a[i - 1] && wb[i] == b[i - 1]);
                }
            } else {
                if i > 0 {
                    assert(wa[i] == sa[i - 1] && wb[i] == sb[i - 1]);
                } else {
                    assert(wa[0] == a[0] && wb[0] == b[0]);
                }
            }
        }
    }
}

proof fn lemma_lasting_agree(a: Seq<(Seq<char>, JsonView)>, b: Seq<(Seq<char>, JsonView)>)
    requires
        agree(
            a,
            b,
            Set::empty().insert("input"@).insert("tool_choice"@).insert("parallel_tool_calls"@),
        ),
    ensures
        lasting(a) == lasting(b),
{
    let but = Set::<Seq<char>>::empty().insert("input"@).insert("tool_choice"@).insert(
        "parallel_tool_calls"@,
    );
    lemma_agree_without(a, b, "input"@, but);
    let but1 = but.remove("input"@);
    let a1 = without(a, "input"@);
    let b1 = without(b, "input"@);
    lemma_agree_without(a1, b1, "type"@, but1);
    let but2 = but1.remove("type"@);
    let a2 = without(a1, "type"@);
    let b2 = without(b1, "type"@);
    lemma_agree_without(a2, b2, "previous_response_id"@, but2);
    let but3 = but2.remove("previous_response_id"@);
    let a3 = without(a2, "previous_response_id"@);
    let b3 = without(b2, "previous_response_id"@);
    lemma_agree_without(a3, b3, "tool_choice"@, but3);
    let but4 = but3.remove("tool_choice"@);
    let a4 = without(a3, "tool_choice"@);
    let b4 = without(b3, "tool_choice"@);
    lemma_agree_without(a4, b4, "parallel_tool_calls"@, but4);
    let but5 = but4.remove("parallel_tool_calls"@);
    assert(lasting(a) =~= lasting(b)) by {
        assert forall|i: int| 0 <= i < lasting(a).len() implies lasting(a)[i] == lasting(b)[i] by {
            assert(!but5.contains(lasting(a)[i].0));
        }
    }
}

/// A request with another input, another choice of tools or another say on parallel calls, and
/// otherwise the same, still continues the one before.
pub proof fn law_choice_of_tools_keeps_the_continuation(
    a: RequestView,
    b: RequestView,
    effort: Option<OpenAiReasoningEffort>,
    store: bool,
    mode: PromptCacheMode,
)
    requires
        b == (RequestView {
            input: b.input,
            tool_choice: b.tool_choice,
            parallel_tool_calls: b.parallel_tool_calls,
            ..a
        }),
    ensures
        lasting(socket_body(a, effort, store, mode)) == lasting(socket_body(b, effort, store, mode)),
{
    let but = Set::<Seq<char>>::empty().insert("input"@).insert("tool_choice"@).insert(
        "parallel_tool_calls"@,
    );
    let ma = body_members(a, effort, store, mode);
    let mb = body_members(b, effort, store, mode);
    assert(agree(body_head(a, mode), body_head(b, mode), but));
    assert(body_options(a, effort, mode) == body_options(b, effort, mode));
    assert(agree(body_tail(a, store), body_tail(b, store), but)) by {
        let ta = body_tail(a, store);
        let tb = body_tail(b, store);
        assert(ta.len() == tb.len());
        assert forall|i: int| 0 <= i < ta.len() implies (#[trigger] ta[i]).0 == tb[i].0 && (
        but.contains(ta[i].0) || ta[i] == tb[i]) by {
            if i == ta.len() - 2 {
                assert(ta[i].0 == "tool_choice"@);
            }
        }
    }
    assert(agree(ma, mb, but)) by {
        let h = body_head(a, mode).len() as int;
        let o = body_options(a, effort, mode).len() as int;
        assert forall|i: int| 0 <= i < ma.len() implies (#[trigger] ma[i]).0 == mb[i].0 && (
        but.contains(ma[i].0) || ma[i] == mb[i]) by {
            if i < h {
                assert(ma[i] == body_head(a, mode)[i] && mb[i] == body_head(b, mode)[i]);
            } else if i < h + o {
                assert(ma[i] == body_options(a, effort, mode)[i - h]);
                assert(mb[i] == body_options(b, effort, mode)[i - h]);
            } else {
                assert(ma[i] == body_tail(a, store)[i - h - o]);
                assert(mb[i] == body_tail(b, store)[i - h - o]);
            }
        }
    }
    lemma_agree_without(ma, mb, "stream"@, but);
    let a1 = without(ma, "stream"@);
    let b1 = without(mb, "stream"@);
    lemma_agree_without(a1, b1, "background"@, but.remove("stream"@));
    let a2 = without(a1, "background"@);
    let b2 = without(b1, "background"@);
    assert(agree(a2, b2, but));
    lemma_agree_with(a2, b2, "type"@, JsonView::Text("response.create"@), but);
    lemma_lasting_agree(socket_members(ma), socket_members(mb));
}

/// A request over a connection, ready to be sent.
#[derive(Debug)]
pub struct SocketRequest {
    /// What is sent.
    pub body: Json,
    /// What the next request has to agree on.
    pub properties: Json,
    /// The whole input, sent or remembered.
    pub input: Vec<Json>,
    pub metadata: ModelRequestMetadata,
}

/// The whole input of a request's body.
pub open spec fn whole_input(body: JsonView) -> Seq<JsonView> {
    match items_field(body, "input"@) {
        Some(items) => items,
        None => Seq::empty(),
    }
}

/// What is sent of a request's body over a connection.
pub open spec fn sent_body(memory: MemoryView, body: Seq<(Seq<char>, JsonView)>) -> Seq<
    (Seq<char>, JsonView),
> {
    let whole = JsonView::Object(body);
    match continuation(memory, lasting_properties(whole), whole_input(whole)) {
        Continuation::Miss(_) => body,
        Continuation::Extends(rest) => with(
            with(body, "previous_response_id"@, JsonView::Text(memory.response_id)),
            "input"@,
            JsonView::Array(rest),
        ),
    }
}

/// What is told of a request over a connection.
pub open spec fn socket_metadata(
    metadata: ModelRequestMetadata,
    provider: Seq<char>,
    request: RequestView,
    mode: PromptCacheMode,
    c: Continuation,
) -> bool {
    &&& maybe(metadata.provider) == Some(provider)
    &&& metadata.api is None
    &&& metadata.model_profile is None
    &&& maybe(metadata.upstream_model) == Some(request.model)
    &&& metadata.transport == ModelTransport::ResponsesWebsocket
    &&& metadata.prompt_cache_mode == mode
    &&& maybe(metadata.prompt_cache_key) == cache_key_of(request)
    &&& metadata.prompt_cache_breakpoint == (mode == PromptCacheMode::Explicit)
    &&& metadata.used_previous_response_id == (c is Extends)
    &&& maybe(metadata.continuation_miss_reason) == told(c).1
    &&& metadata.websocket_fallback_reason is None
}

/// The key under which a request is cached.
pub open spec fn cache_key_of(request: RequestView) -> Option<Seq<char>> {
    match request.prompt_cache {
        Some(cache) => Some(cache.0),
        None => None,
    }
}

/// The key under which a request is cached.
pub fn prompt_cache_key(request: &ModelRequest) -> (r: Option<String>)
    ensures
        maybe(r) == cache_key_of(request@),
{
    match &request.prompt_cache {
        Some(cache) => Some(cache.key.clone()),
        None => None,
    }
}

/// Makes a request ready for a connection.
pub fn prepare_socket_request(
    memory: &SocketMemory,
    request: &ModelRequest,
    config: &OpenAiResponsesConfig,
    prompt_cache_mode: PromptCacheMode,
) -> (r: SocketRequest)
    ensures
        ({
            let body = socket_body(
                request@,
                config.reasoning_effort,
                config.store_responses,
                prompt_cache_mode,
            );
            let whole = JsonView::Object(body);
            &&& r.body@ == JsonView::Object(sent_body(memory@, body))
            &&& r.properties@ == lasting_properties(whole)
            &&& views(r.input@) == whole_input(whole)
            &&& socket_metadata(
                r.metadata,
                config.provider_id@,
                request@,
                prompt_cache_mode,
                continuation(memory@, lasting_properties(whole), whole_input(whole)),
            )
        }),
{
    let mut body = websocket_request_body(request, config, prompt_cache_mode);
    let input = match body.items_at("input") {
        Some(items) => copy_values(items),
        None => {
            let none: Vec<Json> = Vec::new();
            assert(views(none@) =~= Seq::<JsonView>::empty());
            none
        },
    };
    let properties = websocket_request_properties(&body);
    let decision = websocket_continuation(memory, &properties, &input);
    let used_previous_response_id = decision.incremental_input.is_some();
    if let Some(rest) = decision.incremental_input {
        body = match body {
            Json::Object(members) => {
                let mut members = members;
                insert_member(
                    &mut members,
                    "previous_response_id",
                    Json::Text(memory.last_response_id.clone()),
                );
                insert_member(&mut members, "input", Json::Array(rest));
                Json::Object(members)
            },
            other => other,
        };
    }
    let metadata = ModelRequestMetadata {
        provider: Some(config.provider_id.clone()),
        api: None,
        model_profile: None,
        upstream_model: Some(request.model.clone()),
        transport: ModelTransport::ResponsesWebsocket,
        prompt_cache_mode,
        prompt_cache_key: prompt_cache_key(request),
        prompt_cache_breakpoint: prompt_cache_mode == PromptCacheMode::Explicit,
        used_previous_response_id,
        continuation_miss_reason: match decision.miss_reason {
            Some(reason) => Some(reason.to_owned()),
            None => None,
        },
        websocket_fallback_reason: None,
    };
    SocketRequest { body, properties, input, metadata }
}

/// Copies values.
pub fn copy_values(items: &Vec<Json>) -> (r: Vec<Json>)
    ensures
        views(r@) == views(items@),
{
    let mut r: Vec<Json> = Vec::new();
    let mut i: usize = 0;
    assert(views(r@) =~= views(items@).take(0));
    while i < items.len()
        invariant
            i <= items@.len(),
            views(r@) == views(items@).take(i as int),
        decreases items.len() - i,
    {
        let item = items[i].clone();
        proof {
            lemma_views_push(r@, item);
        }
        r.push(item);
        assert(views(r@) =~= views(items@).take(i + 1));
        i = i + 1;
    }
    assert(views(items@).take(i as int) =~= views(items@));
    r
}

/// Why bytes are no text.
pub uninterp spec fn utf8_fault(bytes: Seq<u8>) -> Seq<char>;

/// Reads bytes as text with `String::from_utf8`, which takes exactly the valid UTF-8 sequences and
/// hands back the characters that they encode. The words of its error are named, not stated.
#[verifier::external_body]
pub(crate) fn utf8_text(bytes: Vec<u8>) -> (r: Result<String, String>)
    ensures
        match r {
            Ok(text) => valid_utf8(bytes@) && text@ == decode_utf8(bytes@),
            Err(e) => !valid_utf8(bytes@) && e@ == utf8_fault(bytes@),
        },
{
    String::from_utf8(bytes).map_err(|e| e.to_string())
}

/// What comes over a connection while an answer is awaited.
#[derive(Debug)]
pub enum SocketMessage {
    Text(String),
    Binary(Vec<u8>),
    Ping,
    Pong,
    Close,
    Frame,
    /// The answer to a ping could not be sent.
    PongFailed(String),
    /// Receiving failed.
    Broken(String),
    /// Nothing more will come.
    Ended,
    /// Nothing came for too long.
    Idle,
}

/// What is to be done about a message.
#[derive(Debug)]
pub enum SocketStep {
    /// Wait for the next message.
    Wait,
    /// Answer the ping, and wait for the next message.
    Pong,
    /// Tell the event, and wait for the next message.
    Tell(ModelEvent),
    /// Tell the error and drop the connection. The session goes without one where `fall_back`.
    Fail { error: ModelError, fall_back: bool },
    /// Keep the connection with what it remembers from now on, and tell the event.
    Finish { memory: SocketMemory, event: Option<ModelEvent> },
}

/// The mathematical value of a [`SocketStep`].
pub ghost enum StepView {
    Wait,
    Pong,
    Tell(ModelEventView),
    Fail { error: ModelErrorView, fall_back: bool },
    Finish { memory: MemoryView, event: Option<ModelEventView> },
}

impl View for SocketStep {
    type V = StepView;

    open spec fn view(&self) -> StepView {
        match *self {
            SocketStep::Wait => StepView::Wait,
            SocketStep::Pong => StepView::Pong,
            SocketStep::Tell(event) => StepView::Tell(event@),
            SocketStep::Fail { error, fall_back } => StepView::Fail { error: error@, fall_back },
            SocketStep::Finish { memory, event } => StepView::Finish {
                memory: memory@,
                event: match event {
                    Some(e) => Some(e@),
                    None => None,
                },
            },
        }
    }
}

/// An answer on its way over a connection.
#[derive(Debug)]
pub struct SocketReply {
    pub properties: Json,
    pub input: Vec<Json>,
    pub idle_seconds: u64,
    pub response_id: String,
    pub response_items: Vec<Json>,
}

/// The mathematical value of a [`SocketReply`].
pub ghost struct ReplyView {
    pub properties: JsonView,
    pub input: Seq<JsonView>,
    pub idle_seconds: u64,
    pub response_id: Seq<char>,
    pub items: Seq<JsonView>,
}

impl View for SocketReply {
    type V = ReplyView;

    open spec fn view(&self) -> ReplyView {
        ReplyView {
            properties: self.properties@,
            input: views(self.input@),
            idle_seconds: self.idle_seconds,
            response_id: self.response_id@,
            items: views(self.response_items@),
        }
    }
}

/// The end of an answer by a failure of the connection.
pub open spec fn broken(message: Seq<char>) -> StepView {
    StepView::Fail { error: ModelErrorView::Stream(message), fall_back: true }
}

/// An answer once an event of it was read.
pub open spec fn reply_with(reply: ReplyView, value: JsonView) -> ReplyView {
    ReplyView {
        response_id: match text_in(field2(value, "response"@, "id"@)) {
            Some(id) => id,
            None => reply.response_id,
        },
        items: if event_type(value) == "response.output_item.done"@ {
            match crate::json::field(value, "item"@) {
                Some(item) => reply.items.push(sanitized(item)),
                None => reply.items,
            }
        } else {
            reply.items
        },
        ..reply
    }
}

/// What a connection remembers of an answer.
pub open spec fn remembered(reply: ReplyView) -> MemoryView {
    MemoryView {
        properties: reply.properties,
        input: reply.input,
        response_id: reply.response_id,
        items: reply.items,
    }
}

/// What is to be done about an event, given what it says to the library.
pub open spec fn event_step(
    reply: ReplyView,
    value: JsonView,
    event: Result<Option<ModelEventView>, ModelErrorView>,
) -> StepView {
    let reply = reply_with(reply, value);
    match event {
        Err(error) => StepView::Fail {
            error,
            fall_back: error is Stream || error is Transport,
        },
        Ok(event) => if event_type(value) == "response.completed"@ {
            if reply.response_id.len() == 0 {
                broken("Responses WebSocket completion omitted response.id"@)
            } else {
                StepView::Finish { memory: remembered(reply), event }
            }
        } else {
            match event {
                Some(event) => StepView::Tell(event),
                None => StepView::Wait,
            }
        },
    }
}

/// The text of a message that has one.
pub open spec fn message_text(message: SocketMessage) -> Option<Seq<char>> {
    match message {
        SocketMessage::Text(text) => Some(text@),
        SocketMessage::Binary(bytes) => if valid_utf8(bytes@) {
            Some(decode_utf8(bytes@))
        } else {
            None
        },
        _ => None,
    }
}

/// What is to be done about a message, and what the answer is from now on.
pub open spec fn message_step(reply: ReplyView, message: SocketMessage) -> (ReplyView, StepView) {
    match message_text(message) {
        Some(data) => match json_parsed(data) {
            Ok(value) => (
                reply_with(reply, value),
                event_step(reply, value, event_of(data)),
            ),
            Err(e) => (reply, broken("invalid provider event JSON: "@ + e)),
        },
        None => (
            reply,
            match message {
                SocketMessage::Ping => StepView::Pong,
                SocketMessage::Pong | SocketMessage::Frame => StepView::Wait,
                SocketMessage::Broken(e) => broken("Responses WebSocket receive failed: "@ + e@),
                SocketMessage::PongFailed(e) => broken("Responses WebSocket pong failed: "@ + e@),
                SocketMessage::Idle => broken(
                    "Responses WebSocket was idle for "@ + decimal(reply.idle_seconds as nat)
                        + " seconds"@,
                ),
                SocketMessage::Binary(bytes) => broken(
                    "Responses WebSocket returned invalid UTF-8: "@ + utf8_fault(bytes@),
                ),
                _ => broken("Responses WebSocket closed before response.completed"@),
            },
        ),
    }
}

fn stop(prefix: &str, detail: &str) -> (r: SocketStep)
    ensures
        r@ == broken(prefix@ + detail@),
{
    let mut message = prefix.to_owned();
    message.append(detail);
    SocketStep::Fail { error: ModelError::Stream(message), fall_back: true }
}

fn closed() -> (r: SocketStep)
    ensures
        r@ == broken("Responses WebSocket closed before response.completed"@),
{
    SocketStep::Fail {
        error: ModelError::Stream(
            "Responses WebSocket closed before response.completed".to_owned(),
        ),
        fall_back: true,
    }
}

impl SocketReply {
    /// An answer of which nothing came yet.
    pub fn new(properties: Json, input: Vec<Json>, idle_seconds: u64) -> (r: Self)
        ensures
            r@ == (ReplyView {
                properties: properties@,
                input: views(input@),
                idle_seconds,
                response_id: Seq::empty(),
                items: Seq::empty(),
            }),
    {
        let r = SocketReply {
            properties,
            input,
            idle_seconds,
            response_id: String::new(),
            response_items: Vec::new(),
        };
        assert(r@.items =~= Seq::<JsonView>::empty());
        r
    }

    /// Takes in an event, given what it says to the library.
    pub fn accept(
        &mut self,
        value: &Json,
        event: Result<Option<ModelEvent>, ModelError>,
    ) -> (r: SocketStep)
        ensures
            final(self)@ == reply_with(old(self)@, value@),
            r@ == event_step(old(self)@, value@, read_view(event)),
    {
        let kind = match value.text_at("type") {
            Some(kind) => kind,
            None => {
                proof {
                    reveal_strlit("");
                    assert(""@ =~= Seq::<char>::empty());
                }
                ""
            },
        };
        if let Some(id) = read_text(value.get2("response", "id")) {
            self.response_id = id.to_owned();
        }
        if same(kind, "response.output_item.done") {
            if let Some(item) = value.get("item") {
                let clean = sanitize_response_item(item);
                proof {
                    lemma_views_push(self.response_items@, clean);
                }
                self.response_items.push(clean);
            }
        }
        match event {
            Err(error) => {
                let fall_back = match &error {
                    ModelError::Stream(_) => true,
                    ModelError::Transport(_) => true,
                    _ => false,
                };
                SocketStep::Fail { error, fall_back }
            },
            Ok(event) => {
                if same(kind, "response.completed") {
                    if self.response_id.as_str().is_empty() {
                        SocketStep::Fail {
                            error: ModelError::Stream(
                                "Responses WebSocket completion omitted response.id".to_owned(),
                            ),
                            fall_back: true,
                        }
                    } else {
                        SocketStep::Finish { memory: self.remember(), event }
                    }
                } else {
                    match event {
                        Some(event) => SocketStep::Tell(event),
                        None => SocketStep::Wait,
                    }
                }
            },
        }
    }

    fn remember(&self) -> (r: SocketMemory)
        ensures
            r@ == remembered(self@),
    {
        SocketMemory {
            last_request_properties: self.properties.clone(),
            last_request_input: copy_values(&self.input),
            last_response_id: self.response_id.clone(),
            last_response_items: copy_values(&self.response_items),
        }
    }

    fn read(&mut self, data: &str) -> (r: SocketStep)
        ensures
            match json_parsed(data@) {
                Ok(value) => {
                    &&& final(self)@ == reply_with(old(self)@, value)
                    &&& r@ == event_step(old(self)@, value, event_of(data@))
                },
                Err(e) => {
                    &&& final(self)@ == old(self)@
                    &&& r@ == broken("invalid provider event JSON: "@ + e)
                },
            },
    {
        match Json::parse(data) {
            Ok(value) => {
                let event = parse_event_data(data);
                self.accept(&value, event)
            },
            Err(e) => stop("invalid provider event JSON: ", e.as_str()),
        }
    }

    /// Takes in a message.
    pub fn receive(&mut self, message: SocketMessage) -> (r: SocketStep)
        ensures
            (final(self)@, r@) == message_step(old(self)@, message),
    {
        match message {
            SocketMessage::Text(text) => self.read(text.as_str()),
            SocketMessage::Binary(bytes) => match utf8_text(bytes) {
                Ok(text) => self.read(text.as_str()),
                Err(e) => stop("Responses WebSocket returned invalid UTF-8: ", e.as_str()),
            },
            SocketMessage::Ping => SocketStep::Pong,
            SocketMessage::Pong => SocketStep::Wait,
            SocketMessage::Frame => SocketStep::Wait,
            SocketMessage::Close => closed(),
            SocketMessage::Ended => closed(),
            SocketMessage::PongFailed(e) => stop("Responses WebSocket pong failed: ", e.as_str()),
            SocketMessage::Broken(e) => stop("Responses WebSocket receive failed: ", e.as_str()),
            SocketMessage::Idle => {
                let mut message = "Responses WebSocket was idle for ".to_owned();
                let seconds = number(self.idle_seconds);
                message.append(seconds.as_str());
                message.append(" seconds");
                SocketStep::Fail { error: ModelError::Stream(message), fall_back: true }
            },
        }
    }
}

/// A connection that ends an answer well remembers the request, its answer and the answer's id, so
/// that a request with both in its input and more behind them continues it.
pub proof fn law_finished_answers_are_continued(
    reply: ReplyView,
    message: SocketMessage,
    new: Seq<JsonView>,
)
    requires
        new.len() > 0,
        reply_after(reply, message).items.len() + reply.input.len() <= usize::MAX,
    ensures
        match message_step(reply, message).1 {
            StepView::Finish { memory, .. } => continuation(
                memory,
                reply.properties,
                reply.input + reply_after(reply, message).items + new,
            ) == Continuation::Extends(new),
            _ => true,
        },
{
    lemma_alike_reflexive(reply.properties);
    if let StepView::Finish { memory, .. } = message_step(reply, message).1 {
        law_longer_history_continues(memory, reply.properties, new);
    }
}

/// The answer after a message.
pub open spec fn reply_after(reply: ReplyView, message: SocketMessage) -> ReplyView {
    message_step(reply, message).0
}

} // verus!
