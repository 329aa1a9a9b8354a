//! Answers of the Chat Completions API, put together from their parts.

use crate::json::{
    as_items, field, field2, group_json, json_parsed, member_views, number_in, put, read_number,
    read_text, text_field, text_in, unsigned_field, views, Json, JsonView,
};
use crate::model::error::{ModelError, ModelErrorView};
use crate::model::http::{seconds_message, SseMessage};
use crate::protocol::model::{no_usage, ModelEvent, ModelEventView, TokenUsage};
use crate::text::{debug_text, decimal, is_blank, quoted, same, trim, trimmed};
use vstd::prelude::*;

verus! {

broadcast use group_json;

/// The usage that a chunk tells.
pub open spec fn chat_usage(usage: JsonView) -> TokenUsage {
    TokenUsage {
        input_tokens: number_in(field(usage, "prompt_tokens"@)),
        output_tokens: number_in(field(usage, "completion_tokens"@)),
        cached_input_tokens: number_in(
            match field(usage, "prompt_cache_hit_tokens"@) {
                Some(n) => Some(n),
                None => field2(usage, "prompt_tokens_details"@, "cached_tokens"@),
            },
        ),
        cache_write_input_tokens: 0,
    }
}

/// Reads the usage that a chunk tells.
pub fn parse_usage(usage: &Json) -> (r: TokenUsage)
    ensures
        r == chat_usage(usage@),
{
    let cached = match usage.get("prompt_cache_hit_tokens") {
        Some(n) => Some(n),
        None => usage.get2("prompt_tokens_details", "cached_tokens"),
    };
    TokenUsage {
        input_tokens: read_number(usage.get("prompt_tokens")),
        output_tokens: read_number(usage.get("completion_tokens")),
        cached_input_tokens: read_number(cached),
        cache_write_input_tokens: 0,
    }
}

/// A call of which parts came.
#[derive(Debug)]
pub struct PartialToolCall {
    pub index: u64,
    pub call_id: String,
    pub name: String,
    pub arguments: String,
}

/// The mathematical value of a [`PartialToolCall`].
pub ghost struct PartialView {
    pub index: u64,
    pub call_id: Seq<char>,
    pub name: Seq<char>,
    pub arguments: Seq<char>,
}

impl View for PartialToolCall {
    type V = PartialView;

    open spec fn view(&self) -> PartialView {
        PartialView {
            index: self.index,
            call_id: self.call_id@,
            name: self.name@,
            arguments: self.arguments@,
        }
    }
}

/// The values of calls.
pub open spec fn partial_views(calls: Seq<PartialToolCall>) -> Seq<PartialView> {
    calls.map_values(|c: PartialToolCall| c@)
}

/// Whether calls stand in the order of their indices, each once.
pub open spec fn by_index(calls: Seq<PartialView>) -> bool {
    forall|i: int, j: int|
        0 <= i < j < calls.len() ==> (#[trigger] calls[i]).index < (#[trigger] calls[j]).index
}

/// A text that may be missing, empty then.
pub open spec fn or_empty(t: Option<Seq<char>>) -> Seq<char> {
    match t {
        Some(t) => t,
        None => Seq::empty(),
    }
}

/// A call with one part more: an id replaces the one before, the rest is appended.
pub open spec fn grown(call: PartialView, part: JsonView) -> PartialView {
    PartialView {
        call_id: match text_field(part, "id"@) {
            Some(id) => if id.len() > 0 {
                id
            } else {
                call.call_id
            },
            None => call.call_id,
        },
        name: call.name + or_empty(text_in(field2(part, "function"@, "name"@))),
        arguments: call.arguments + or_empty(text_in(field2(part, "function"@, "arguments"@))),
        ..call
    }
}

/// A call of which nothing came.
pub open spec fn unheard(index: u64) -> PartialView {
    PartialView { index, call_id: Seq::empty(), name: Seq::empty(), arguments: Seq::empty() }
}

/// Calls with a part more of that of an index, in the order of indices.
pub open spec fn with_part(calls: Seq<PartialView>, index: u64, part: JsonView) -> Seq<PartialView>
    decreases calls.len(),
{
    if calls.len() == 0 {
        seq![grown(unheard(index), part)]
    } else if calls[0].index == index {
        seq![grown(calls[0], part)] + calls.drop_first()
    } else if index < calls[0].index {
        seq![grown(unheard(index), part)] + calls
    } else {
        seq![calls[0]] + with_part(calls.drop_first(), index, part)
    }
}

/// The index of a part: the one that it names, or its place.
pub open spec fn part_index(part: JsonView, place: int) -> u64 {
    match unsigned_field(part, "index"@) {
        Some(index) => index,
        None => place as u64,
    }
}

/// Calls with some parts more.
pub open spec fn with_parts(calls: Seq<PartialView>, parts: Seq<JsonView>) -> Seq<PartialView>
    decreases parts.len(),
{
    if parts.len() == 0 {
        calls
    } else {
        with_part(
            with_parts(calls, parts.drop_last()),
            part_index(parts.last(), parts.len() - 1),
            parts.last(),
        )
    }
}

/// Parts keep the calls in order.
pub proof fn lemma_part_keeps_order(calls: Seq<PartialView>, index: u64, part: JsonView)
    requires
        by_index(calls),
    ensures
        by_index(with_part(calls, index, part)),
        forall|i: int|
            0 <= i < with_part(calls, index, part).len() ==> {
                ||| (#[trigger] with_part(calls, index, part)[i]).index == index
                ||| exists|k: int|
                    0 <= k < calls.len() && calls[k].index == with_part(calls, index, part)[i].index
            },
    decreases calls.len(),
{
    let all = with_part(calls, index, part);
    if calls.len() > 0 {
        let rest = calls.drop_first();
        if calls[0].index == index {
            assert forall|i: int| 0 <= i < all.len() implies (#[trigger] all[i]).index
                == calls[i].index by {
                if i > 0 {
                    assert(all[i] == rest[i - 1]);
                }
            }
        } else if index < calls[0].index {
            assert forall|i: int| 0 < i < all.len() implies #[trigger] all[i] == calls[i - 1] by {}
        } else {
            assert forall|i: int, j: int| 0 <= i < j < rest.len() implies (
            #[trigger] rest[i]).index < (#[trigger] rest[j]).index by {
                assert(rest[i] == calls[i + 1] && rest[j] == calls[j + 1]);
            }
            lemma_part_keeps_order(rest, index, part);
            let tail = with_part(rest, index, part);
            assert forall|i: int| 0 < i < all.len() implies #[trigger] all[i] == tail[i - 1]
                && all[i].index > calls[0].index && (all[i].index == index || exists|k: int|
                0 <= k < calls.len() && calls[k].index == all[i].index) by {
                assert(all[i] == tail[i - 1]);
                if tail[i - 1].index != index {
                    let k = choose|k: int|
                        0 <= k < rest.len() && rest[k].index == tail[i - 1].index;
                    assert(rest[k] == calls[k + 1]);
                    assert(calls[0].index < calls[k + 1].index);
                }
            }
        }
    }
}

/// Parts keep the calls in order.
pub proof fn lemma_parts_keep_order(calls: Seq<PartialView>, parts: Seq<JsonView>)
    requires
        by_index(calls),
    ensures
        by_index(with_parts(calls, parts)),
    decreases parts.len(),
{
    if parts.len() > 0 {
        lemma_parts_keep_order(calls, parts.drop_last());
        lemma_part_keeps_order(
            with_parts(calls, parts.drop_last()),
            part_index(parts.last(), parts.len() - 1),
            parts.last(),
        );
    }
}

fn grow(call: PartialToolCall, part: &Json) -> (r: PartialToolCall)
    ensures
        r@ == grown(call@, part@),
{
    let mut call = call;
    let ghost before = call@;
    if let Some(id) = part.text_at("id") {
        if !id.is_empty() {
            call.call_id = id.to_owned();
        }
    }
    match read_text(part.get2("function", "name")) {
        Some(name) => {
            call.name.append(name);
        },
        None => {
            assert(before.name + Seq::<char>::empty() =~= before.name);
        },
    }
    match read_text(part.get2("function", "arguments")) {
        Some(arguments) => {
            call.arguments.append(arguments);
        },
        None => {
            assert(before.arguments + Seq::<char>::empty() =~= before.arguments);
        },
    }
    call
}

fn add_part(calls: &mut Vec<PartialToolCall>, index: u64, part: &Json)
    ensures
        partial_views(final(calls)@) == with_part(partial_views(old(calls)@), index, part@),
{
    let ghost all = partial_views(calls@);
    let mut i: usize = 0;
    assert(all.skip(0) =~= all);
    assert(all.take(0) + with_part(all.skip(0), index, part@) =~= with_part(all, index, part@));
    while i < calls.len()
        invariant
            i <= calls@.len(),
            calls@ == old(calls)@,
            all == partial_views(calls@),
            with_part(all, index, part@) == all.take(i as int) + with_part(
                all.skip(i as int),
                index,
                part@,
            ),
        decreases calls.len() - i,
    {
        let ghost rest = all.skip(i as int);
        assert(rest[0] == calls@[i as int]@);
        if calls[i].index == index {
            let call = calls.remove(i);
            let call = grow(call, part);
            calls.insert(i, call);
            assert(partial_views(calls@) =~= all.take(i as int) + (seq![call@]
                + rest.drop_first()));
            return;
        }
        if index < calls[i].index {
            let call = grow(
                PartialToolCall {
                    index,
                    call_id: String::new(),
                    name: String::new(),
                    arguments: String::new(),
                },
                part,
            );
            calls.insert(i, call);
            assert(partial_views(calls@) =~= all.take(i as int) + (seq![call@] + rest));
            return;
        }
        assert(rest.drop_first() =~= all.skip(i + 1));
        assert(all.take(i as int) + (seq![rest[0]] + with_part(all.skip(i + 1), index, part@))
            =~= all.take(i + 1) + with_part(all.skip(i + 1), index, part@));
        i = i + 1;
    }
    assert(all.skip(i as int) =~= Seq::<PartialView>::empty());
    let call = grow(
        PartialToolCall {
            index,
            call_id: String::new(),
            name: String::new(),
            arguments: String::new(),
        },
        part,
    );
    calls.push(call);
    assert(partial_views(calls@) =~= all.take(i as int) + seq![call@]);
}

/// What came of an answer so far.
#[derive(Debug)]
pub struct ChatStreamState {
    pub text: String,
    pub reasoning: String,
    pub tool_calls: Vec<PartialToolCall>,
    pub usage: TokenUsage,
    pub terminal_finish: bool,
}

/// The mathematical value of a [`ChatStreamState`].
pub ghost struct ChatView {
    pub text: Seq<char>,
    pub reasoning: Seq<char>,
    pub calls: Seq<PartialView>,
    pub usage: TokenUsage,
    pub terminal: bool,
}

impl View for ChatStreamState {
    type V = ChatView;

    open spec fn view(&self) -> ChatView {
        ChatView {
            text: self.text@,
            reasoning: self.reasoning@,
            calls: partial_views(self.tool_calls@),
            usage: self.usage,
            terminal: self.terminal_finish,
        }
    }
}

impl ChatView {
    /// Whether the calls stand in order.
    pub open spec fn wf(self) -> bool {
        by_index(self.calls)
    }
}

/// An answer of which nothing came.
pub open spec fn no_answer() -> ChatView {
    ChatView {
        text: Seq::empty(),
        reasoning: Seq::empty(),
        calls: Seq::empty(),
        usage: no_usage(),
        terminal: false,
    }
}

impl Default for ChatStreamState {
    fn default() -> (r: Self)
        ensures
            r@ == no_answer(),
            r@.wf(),
    {
        let r = ChatStreamState {
            text: String::new(),
            reasoning: String::new(),
            tool_calls: Vec::new(),
            usage: TokenUsage::default(),
            terminal_finish: false,
        };
        assert(r@.calls =~= Seq::<PartialView>::empty());
        r
    }
}

/// What a choice adds.
pub open spec fn delta_of(choice: JsonView) -> JsonView {
    match field(choice, "delta"@) {
        Some(delta) => delta,
        None => JsonView::Null,
    }
}

/// The text that a choice adds.
pub open spec fn new_text(choice: JsonView) -> Seq<char> {
    or_empty(text_field(delta_of(choice), "content"@))
}

/// The parts of calls that a choice adds.
pub open spec fn new_parts(choice: JsonView) -> Seq<JsonView> {
    match field(delta_of(choice), "tool_calls"@) {
        Some(JsonView::Array(parts)) => parts,
        _ => Seq::empty(),
    }
}

/// Whether a reason ends an answer well.
pub open spec fn ends_well(reason: Option<Seq<char>>) -> bool {
    reason == Some("stop"@) || reason == Some("tool_calls"@)
}

/// What is wrong with an answer that ends for a reason.
pub open spec fn finish_fault(reason: Seq<char>, usage: TokenUsage) -> Option<ModelErrorView> {
    if ends_well(Some(reason)) {
        None
    } else if reason == "length"@ {
        Some(ModelErrorView::IncompleteResponse { reason: "max_output_tokens"@, usage })
    } else if reason == "insufficient_system_resource"@ {
        Some(ModelErrorView::Stream("provider stopped for insufficient system resources"@))
    } else {
        Some(
            ModelErrorView::Provider(
                "provider stopped with finish_reason "@ + debug_text(reason),
            ),
        )
    }
}

/// An answer with what a choice adds.
pub open spec fn with_choice(s: ChatView, choice: JsonView) -> ChatView {
    ChatView {
        text: s.text + new_text(choice),
        reasoning: s.reasoning + or_empty(text_field(delta_of(choice), "reasoning_content"@)),
        calls: with_parts(s.calls, new_parts(choice)),
        terminal: s.terminal || ends_well(text_field(choice, "finish_reason"@)),
        ..s
    }
}

/// What a choice tells.
pub open spec fn choice_told(s: ChatView, choice: JsonView) -> Result<
    Seq<ModelEventView>,
    ModelErrorView,
> {
    let events = if new_text(choice).len() > 0 {
        seq![ModelEventView::OutputTextDelta(new_text(choice))]
    } else {
        Seq::empty()
    };
    match text_field(choice, "finish_reason"@) {
        Some(reason) => match finish_fault(reason, s.usage) {
            Some(fault) => Err(fault),
            None => Ok(events),
        },
        None => Ok(events),
    }
}

/// An answer with the usage that a chunk tells.
pub open spec fn with_usage(s: ChatView, chunk: JsonView) -> ChatView {
    match field(chunk, "usage"@) {
        Some(usage) => if usage is Null {
            s
        } else {
            ChatView { usage: chat_usage(usage), ..s }
        },
        None => s,
    }
}

/// The choices of a chunk.
pub open spec fn choices_of(chunk: JsonView) -> Seq<JsonView> {
    match field(chunk, "choices"@) {
        Some(choices) => match as_items(choices) {
            Some(items) => items,
            None => Seq::empty(),
        },
        None => Seq::empty(),
    }
}

/// An answer after a chunk, and what the chunk tells.
pub open spec fn chunk_step(s: ChatView, chunk: JsonView) -> (
    ChatView,
    Result<Seq<ModelEventView>, ModelErrorView>,
) {
    match field(chunk, "error"@) {
        Some(error) => (
            s,
            Err(
                ModelErrorView::Provider(
                    match text_field(error, "message"@) {
                        Some(message) => message,
                        None => "unknown provider error"@,
                    },
                ),
            ),
        ),
        None => {
            let s = with_usage(s, chunk);
            let choices = choices_of(chunk);
            if choices.len() > 1 {
                (
                    s,
                    Err(ModelErrorView::Stream("Chat Completions returned more than one choice"@)),
                )
            } else if choices.len() == 1 {
                (with_choice(s, choices[0]), choice_told(s, choices[0]))
            } else {
                (s, Ok(Seq::empty()))
            }
        },
    }
}

/// An answer after the data of a chunk, and what they tell.
pub open spec fn data_step(s: ChatView, data: Seq<char>) -> (
    ChatView,
    Result<Seq<ModelEventView>, ModelErrorView>,
) {
    match json_parsed(data) {
        Ok(chunk) => chunk_step(s, chunk),
        Err(e) => (s, Err(ModelErrorView::Stream("invalid Chat SSE JSON: "@ + e))),
    }
}

/// The values of events.
pub open spec fn event_views(events: Seq<ModelEvent>) -> Seq<ModelEventView> {
    events.map_values(|e: ModelEvent| e@)
}

/// The value of what was read.
pub open spec fn told_view(r: Result<Vec<ModelEvent>, ModelError>) -> Result<
    Seq<ModelEventView>,
    ModelErrorView,
> {
    match r {
        Ok(events) => Ok(event_views(events@)),
        Err(e) => Err(e@),
    }
}

/// A thought, as an item.
pub open spec fn thought_item(text: Seq<char>) -> JsonView {
    JsonView::Object(
        seq![("content"@, JsonView::Text(text)), ("type"@, JsonView::Text("reasoning"@))],
    )
}

/// A message, as an item.
pub open spec fn said_item(text: Seq<char>) -> JsonView {
    JsonView::Object(
        seq![
            (
                "content"@,
                JsonView::Array(
                    seq![
                        JsonView::Object(
                            seq![
                                ("text"@, JsonView::Text(text)),
                                ("type"@, JsonView::Text("output_text"@)),
                            ],
                        ),
                    ],
                ),
            ),
            ("role"@, JsonView::Text("assistant"@)),
            ("type"@, JsonView::Text("message"@)),
        ],
    )
}

/// A call, as an item.
pub open spec fn called_item(call: PartialView) -> JsonView {
    JsonView::Object(
        seq![
            ("arguments"@, JsonView::Text(call.arguments)),
            ("call_id"@, JsonView::Text(call.call_id)),
            ("name"@, JsonView::Text(call.name)),
            ("type"@, JsonView::Text("function_call"@)),
        ],
    )
}

/// Whether a call can be answered: it has an id and a name.
pub open spec fn is_whole(call: PartialView) -> bool {
    trimmed(call.call_id).len() > 0 && trimmed(call.name).len() > 0
}

/// An event that tells an item where there is one.
pub open spec fn item_event(text: Seq<char>, item: JsonView) -> Seq<ModelEventView> {
    if text.len() > 0 {
        seq![ModelEventView::ResponseItemCompleted(item)]
    } else {
        Seq::empty()
    }
}

/// What a whole answer tells: its thought, its message, its calls and its usage.
pub open spec fn answer_events(s: ChatView) -> Seq<ModelEventView> {
    item_event(s.reasoning, thought_item(s.reasoning)) + item_event(s.text, said_item(s.text))
        + s.calls.map_values(
        |c: PartialView| ModelEventView::ResponseItemCompleted(called_item(c)),
    ) + seq![ModelEventView::Completed(s.usage)]
}

/// What the end of an answer tells.
pub open spec fn end_told(s: ChatView) -> Result<Seq<ModelEventView>, ModelErrorView> {
    if !s.terminal {
        Err(
            ModelErrorView::Stream(
                "Chat Completions stream reached data: [DONE] without a terminal finish_reason"@,
            ),
        )
    } else if exists|i: int| 0 <= i < s.calls.len() && !is_whole(#[trigger] s.calls[i]) {
        Err(ModelErrorView::Stream("streamed function call omitted its id or name"@))
    } else {
        Ok(answer_events(s))
    }
}

fn thought_json(text: &str) -> (r: Json)
    ensures
        r@ == thought_item(text@),
{
    let mut o: Vec<(String, Json)> = Vec::new();
    put(&mut o, "content", Json::text(text));
    put(&mut o, "type", Json::text("reasoning"));
    assert(member_views(o@) =~= thought_item(text@)->Object_0);
    Json::Object(o)
}

fn said_json(text: &str) -> (r: Json)
    ensures
        r@ == said_item(text@),
{
    let mut part: Vec<(String, Json)> = Vec::new();
    put(&mut part, "text", Json::text(text));
    put(&mut part, "type", Json::text("output_text"));
    let ghost block = seq![
        ("text"@, JsonView::Text(text@)),
        ("type"@, JsonView::Text("output_text"@)),
    ];
    assert(member_views(part@) =~= block);
    let mut parts: Vec<Json> = Vec::new();
    parts.push(Json::Object(part));
    assert(views(parts@) =~= seq![JsonView::Object(block)]);
    let mut o: Vec<(String, Json)> = Vec::new();
    put(&mut o, "content", Json::Array(parts));
    put(&mut o, "role", Json::text("assistant"));
    put(&mut o, "type", Json::text("message"));
    assert(member_views(o@) =~= said_item(text@)->Object_0);
    Json::Object(o)
}

fn called_json(call: &PartialToolCall) -> (r: Json)
    ensures
        r@ == called_item(call@),
{
    let mut o: Vec<(String, Json)> = Vec::new();
    put(&mut o, "arguments", Json::text(call.arguments.as_str()));
    put(&mut o, "call_id", Json::text(call.call_id.as_str()));
    put(&mut o, "name", Json::text(call.name.as_str()));
    put(&mut o, "type", Json::text("function_call"));
    assert(member_views(o@) =~= called_item(call@)->Object_0);
    Json::Object(o)
}

/// What is to be done about a message of the stream.
#[derive(Debug)]
pub enum ChatStep {
    /// Tell the events, and wait for the next message.
    Go(Vec<ModelEvent>),
    /// Tell the events, and stop.
    Finish(Vec<ModelEvent>),
    /// Tell the error, and stop.
    Fail(ModelError),
}

/// The mathematical value of a [`ChatStep`].
pub ghost enum ChatStepView {
    Go(Seq<ModelEventView>),
    Finish(Seq<ModelEventView>),
    Fail(ModelErrorView),
}

impl View for ChatStep {
    type V = ChatStepView;

    open spec fn view(&self) -> ChatStepView {
        match *self {
            ChatStep::Go(events) => ChatStepView::Go(event_views(events@)),
            ChatStep::Finish(events) => ChatStepView::Finish(event_views(events@)),
            ChatStep::Fail(error) => ChatStepView::Fail(error@),
        }
    }
}

/// An answer after a message of the stream, and what is to be done.
pub open spec fn stream_step(s: ChatView, message: SseMessage, idle_seconds: u64) -> (
    ChatView,
    ChatStepView,
) {
    match message {
        SseMessage::Broken(e) => (s, ChatStepView::Fail(ModelErrorView::Stream(e@))),
        SseMessage::Ended => (
            s,
            ChatStepView::Fail(
                ModelErrorView::Stream("Chat Completions stream ended before data: [DONE]"@),
            ),
        ),
        SseMessage::Idle => (
            s,
            ChatStepView::Fail(
                ModelErrorView::Stream(
                    "provider stream was idle for "@ + decimal(idle_seconds as nat) + " seconds"@,
                ),
            ),
        ),
        SseMessage::Data(data) => if trimmed(data@).len() == 0 {
            (s, ChatStepView::Go(Seq::empty()))
        } else if trimmed(data@) == "[DONE]"@ {
            (
                s,
                match end_told(s) {
                    Ok(events) => ChatStepView::Finish(events),
                    Err(e) => ChatStepView::Fail(e),
                },
            )
        } else {
            (
                data_step(s, data@).0,
                match data_step(s, data@).1 {
                    Ok(events) => ChatStepView::Go(events),
                    Err(e) => ChatStepView::Fail(e),
                },
            )
        },
    }
}

impl ChatStreamState {
    fn take_choice(&mut self, choice: &Json) -> (r: Result<Vec<ModelEvent>, ModelError>)
        requires
            old(self)@.wf(),
        ensures
            final(self)@.wf(),
            final(self)@ == with_choice(old(self)@, choice@),
            told_view(r) == choice_told(old(self)@, choice@),
    {
        let ghost before = self@;
        let mut events: Vec<ModelEvent> = Vec::new();
        assert(event_views(events@) =~= Seq::<ModelEventView>::empty());
        let null = Json::Null;
        let delta = match choice.get("delta") {
            Some(delta) => delta,
            None => &null,
        };
        assert(delta@ == delta_of(choice@));
        match delta.text_at("content") {
            Some(content) => {
                self.text.append(content);
                if !content.is_empty() {
                    events.push(ModelEvent::OutputTextDelta { delta: content.to_owned() });
                    assert(event_views(events@) =~= seq![
                        ModelEventView::OutputTextDelta(content@),
                    ]);
                }
            },
            None => {
                assert(before.text + Seq::<char>::empty() =~= before.text);
            },
        }
        match delta.text_at("reasoning_content") {
            Some(reasoning) => {
                self.reasoning.append(reasoning);
            },
            None => {
                assert(before.reasoning + Seq::<char>::empty() =~= before.reasoning);
            },
        }
        if let Some(parts) = delta.items_at("tool_calls") {
            let ghost all = views(parts@);
            let mut i: usize = 0;
            assert(all.take(0) =~= Seq::<JsonView>::empty());
            while i < parts.len()
                invariant
                    i <= parts@.len(),
                    all == views(parts@),
                    partial_views(self.tool_calls@) == with_parts(before.calls, all.take(i as int)),
                    self.text@ == before.text + new_text(choice@),
                    self.reasoning@ == before.reasoning + or_empty(
                        text_field(delta_of(choice@), "reasoning_content"@),
                    ),
                    self.usage == before.usage,
                    self.terminal_finish == before.terminal,
                decreases parts.len() - i,
            {
                assert(all.take(i + 1).drop_last() =~= all.take(i as int));
                let part = &parts[i];
                let index = match part.unsigned_at("index") {
                    Some(index) => index,
                    None => i as u64,
                };
                add_part(&mut self.tool_calls, index, part);
                i = i + 1;
            }
            assert(all.take(i as int) =~= all);
        }
        assert(self@.calls == with_parts(before.calls, new_parts(choice@)));
        proof {
            lemma_parts_keep_order(before.calls, new_parts(choice@));
        }
        if let Some(reason) = choice.text_at("finish_reason") {
            if same(reason, "stop") || same(reason, "tool_calls") {
                self.terminal_finish = true;
            } else if same(reason, "length") {
                return Err(
                    ModelError::IncompleteResponse {
                        reason: "max_output_tokens".to_owned(),
                        usage: self.usage,
                    },
                );
            } else if same(reason, "insufficient_system_resource") {
                return Err(
                    ModelError::Stream(
                        "provider stopped for insufficient system resources".to_owned(),
                    ),
                );
            } else {
                let mut message = "provider stopped with finish_reason ".to_owned();
                let name = quoted(reason);
                message.append(name.as_str());
                return Err(ModelError::Provider(message));
            }
        }
        Ok(events)
    }

    /// Takes in a chunk.
    pub fn take_chunk(&mut self, chunk: &Json) -> (r: Result<Vec<ModelEvent>, ModelError>)
        requires
            old(self)@.wf(),
        ensures
            final(self)@.wf(),
            (final(self)@, told_view(r)) == chunk_step(old(self)@, chunk@),
    {
        if let Some(error) = chunk.get("error") {
            let message = match error.text_at("message") {
                Some(message) => message,
                None => "unknown provider error",
            };
            return Err(ModelError::Provider(message.to_owned()));
        }
        if let Some(usage) = chunk.get("usage") {
            let told = match usage {
                Json::Null => false,
                _ => true,
            };
            if told {
                self.usage = parse_usage(usage);
            }
        }
        let none: Vec<Json> = Vec::new();
        let choices = match chunk.items_at("choices") {
            Some(choices) => choices,
            None => &none,
        };
        assert(views(choices@) =~= choices_of(chunk@));
        if choices.len() > 1 {
            return Err(
                ModelError::Stream("Chat Completions returned more than one choice".to_owned()),
            );
        }
        if choices.len() == 1 {
            self.take_choice(&choices[0])
        } else {
            let events: Vec<ModelEvent> = Vec::new();
            assert(event_views(events@) =~= Seq::<ModelEventView>::empty());
            Ok(events)
        }
    }

    /// Takes in the data of a chunk.
    pub fn consume(&mut self, data: &str) -> (r: Result<Vec<ModelEvent>, ModelError>)
        requires
            old(self)@.wf(),
        ensures
            final(self)@.wf(),
            (final(self)@, told_view(r)) == data_step(old(self)@, data@),
    {
        match Json::parse(data) {
            Ok(chunk) => self.take_chunk(&chunk),
            Err(e) => {
                let mut message = "invalid Chat SSE JSON: ".to_owned();
                message.append(e.as_str());
                Err(ModelError::Stream(message))
            },
        }
    }

    /// Ends an answer.
    pub fn finish(&self) -> (r: Result<Vec<ModelEvent>, ModelError>)
        ensures
            told_view(r) == end_told(self@),
    {
        if !self.terminal_finish {
            return Err(
                ModelError::Stream(
                    "Chat Completions stream reached data: [DONE] without a terminal finish_reason".to_owned(),
                ),
            );
        }
        let mut events: Vec<ModelEvent> = Vec::new();
        assert(event_views(events@) =~= Seq::<ModelEventView>::empty());
        let ghost thought = item_event(self@.reasoning, thought_item(self@.reasoning));
        let ghost said = item_event(self@.text, said_item(self@.text));
        if !self.reasoning.as_str().is_empty() {
            events.push(
                ModelEvent::ResponseItemCompleted { item: thought_json(self.reasoning.as_str()) },
            );
        }
        assert(event_views(events@) =~= thought);
        if !self.text.as_str().is_empty() {
            events.push(ModelEvent::ResponseItemCompleted { item: said_json(self.text.as_str()) });
        }
        assert(event_views(events@) =~= thought + said);
        let ghost called = self@.calls.map_values(
            |c: PartialView| ModelEventView::ResponseItemCompleted(called_item(c)),
        );
        let mut i: usize = 0;
        assert(thought + said + called.take(0) =~= thought + said);
        while i < self.tool_calls.len()
            invariant
                i <= self.tool_calls@.len(),
                self.terminal_finish,
                called == self@.calls.map_values(
                    |c: PartialView| ModelEventView::ResponseItemCompleted(called_item(c)),
                ),
                event_views(events@) == thought + said + called.take(i as int),
                forall|k: int| 0 <= k < i ==> is_whole(#[trigger] self@.calls[k]),
            decreases self.tool_calls.len() - i,
        {
            let call = &self.tool_calls[i];
            assert(call@ == self@.calls[i as int]);
            if is_blank(call.call_id.as_str()) || is_blank(call.name.as_str()) {
                assert(!is_whole(self@.calls[i as int]));
                return Err(
                    ModelError::Stream("streamed function call omitted its id or name".to_owned()),
                );
            }
            let ghost before = event_views(events@);
            let event = ModelEvent::ResponseItemCompleted { item: called_json(call) };
            assert(event@ == called[i as int]);
            events.push(event);
            assert(event_views(events@) =~= before.push(event@));
            assert(called.take(i + 1) =~= called.take(i as int).push(called[i as int]));
            assert(event_views(events@) =~= thought + said + called.take(i + 1));
            i = i + 1;
        }
        assert(called.take(i as int) =~= called);
        events.push(ModelEvent::Completed { usage: self.usage });
        assert(event_views(events@) =~= answer_events(self@));
        Ok(events)
    }

    /// Takes in a message of the stream.
    pub fn receive(&mut self, message: SseMessage, idle_seconds: u64) -> (r: ChatStep)
        requires
            old(self)@.wf(),
        ensures
            final(self)@.wf(),
            (final(self)@, r@) == stream_step(old(self)@, message, idle_seconds),
    {
        match message {
            SseMessage::Broken(e) => ChatStep::Fail(ModelError::Stream(e)),
            SseMessage::Ended => ChatStep::Fail(
                ModelError::Stream("Chat Completions stream ended before data: [DONE]".to_owned()),
            ),
            SseMessage::Idle => ChatStep::Fail(
                ModelError::Stream(seconds_message("provider stream was idle for ", idle_seconds)),
            ),
            SseMessage::Data(data) => {
                let text = trim(data.as_str());
                if text.as_str().is_empty() {
                    let events: Vec<ModelEvent> = Vec::new();
                    assert(event_views(events@) =~= Seq::<ModelEventView>::empty());
                    ChatStep::Go(events)
                } else if same(text.as_str(), "[DONE]") {
                    match self.finish() {
                        Ok(events) => ChatStep::Finish(events),
                        Err(e) => ChatStep::Fail(e),
                    }
                } else {
                    match self.consume(data.as_str()) {
                        Ok(events) => ChatStep::Go(events),
                        Err(e) => ChatStep::Fail(e),
                    }
                }
            },
        }
    }
}

/// The text that events tell.
pub open spec fn told_text(events: Seq<ModelEventView>) -> Seq<char>
    decreases events.len(),
{
    if events.len() == 0 {
        Seq::empty()
    } else {
        told_text(events.drop_last()) + match events.last() {
            ModelEventView::OutputTextDelta(delta) => delta,
            _ => Seq::empty(),
        }
    }
}

/// What a chunk tells of the text is what it adds to the answer's text.
pub proof fn law_told_text_is_the_text(s: ChatView, chunk: JsonView)
    ensures
        chunk_step(s, chunk).1 matches Ok(events) ==> chunk_step(s, chunk).0.text == s.text
            + told_text(events),
{
    reveal_with_fuel(told_text, 3);
    assert(s.text + Seq::<char>::empty() =~= s.text);
    if choices_of(chunk).len() == 1 && field(chunk, "error"@) is None {
        let added = new_text(choices_of(chunk)[0]);
        if added.len() > 0 {
            let events = seq![ModelEventView::OutputTextDelta(added)];
            assert(events.drop_last() =~= Seq::<ModelEventView>::empty());
            assert(Seq::<char>::empty() + added =~= added);
        } else {
            assert(added =~= Seq::<char>::empty());
        }
    }
}

/// An answer that ends well had a reason to end, all its calls can be answered, and its usage is
/// told last.
pub proof fn law_whole_answers_only(s: ChatView)
    ensures
        end_told(s) matches Ok(events) ==> {
            &&& s.terminal
            &&& forall|i: int| 0 <= i < s.calls.len() ==> is_whole(#[trigger] s.calls[i])
            &&& events.len() > 0
            &&& events.last() == ModelEventView::Completed(s.usage)
        },
{
}

/// Nothing that comes later makes an answer unfinished.
pub proof fn law_a_reason_to_end_stays(s: ChatView, message: SseMessage, idle_seconds: u64)
    requires
        s.terminal,
    ensures
        stream_step(s, message, idle_seconds).0.terminal,
{
}

} // verus!
