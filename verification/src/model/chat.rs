//! Requests to providers that speak the Chat Completions API.

use crate::json::{
    field, group_json, insert_member, items_field, json_parsed, json_text, lemma_views_push,
    member_views, put, text_field, views, with, Json, JsonView,
};
use crate::model::error::{ModelError, ModelErrorView};
use crate::model::http::{account_headers, client_fault, client_headers, header_views};
use crate::model::responses::{
    member_if, one, one_json, protocol_effort, protocol_reasoning_effort, put_if,
    OpenAiReasoningEffort,
};
use crate::model::websocket::{cache_key_of, copy_values, prompt_cache_key};
use crate::protocol::model::{
    FormatView, ItemView, MessageRole, ModelInputItem, ModelRequest, ModelRequestMetadata,
    ModelResponseFormat, ModelToolChoice, ModelTransport, PromptCacheMode, ReasoningEffort,
    RequestView, ToolView,
};
use crate::text::{debug_text, is_blank, maybe, quoted, same, trimmed};
use vstd::prelude::*;

verus! {

broadcast use group_json;

/// Which dialect of the API a provider speaks.
#[derive(Clone, Copy, Debug, PartialEq, Eq, Structural)]
pub enum OpenAiChatCompatibility {
    Generic,
    Deepseek,
    Glm,
}

impl OpenAiChatCompatibility {
    /// The dialect's name.
    pub open spec fn text(self) -> Seq<char> {
        match self {
            OpenAiChatCompatibility::Generic => "generic"@,
            OpenAiChatCompatibility::Deepseek => "deepseek"@,
            OpenAiChatCompatibility::Glm => "glm"@,
        }
    }

    /// The dialect's name.
    pub fn as_str(self) -> (r: &'static str)
        ensures
            r@ == self.text(),
    {
        match self {
            OpenAiChatCompatibility::Generic => "generic",
            OpenAiChatCompatibility::Deepseek => "deepseek",
            OpenAiChatCompatibility::Glm => "glm",
        }
    }
}

impl Default for OpenAiChatCompatibility {
    fn default() -> (r: Self)
        ensures
            r == OpenAiChatCompatibility::Generic,
    {
        OpenAiChatCompatibility::Generic
    }
}

/// How a provider's Chat Completions API is used. It has no `Debug` form, which would show the key.
#[derive(PartialEq, Eq)]
pub struct OpenAiChatConfig {
    pub provider_id: String,
    pub endpoint: String,
    pub api_key: String,
    pub organization: Option<String>,
    pub project: Option<String>,
    pub max_request_retries: u32,
    pub request_timeout_seconds: u64,
    pub stream_idle_timeout_seconds: u64,
    pub reasoning_effort: Option<OpenAiReasoningEffort>,
    pub compatibility: OpenAiChatCompatibility,
}

/// What is said of a blank key.
pub open spec fn blank_chat_key() -> Seq<char> {
    "model provider API key must not be empty"@
}

impl OpenAiChatConfig {
    /// Makes the headers of every request.
    pub fn headers(&self) -> (r: Result<Vec<(String, String)>, ModelError>)
        ensures
            match r {
                Ok(headers) => client_fault(
                    blank_chat_key(),
                    self.api_key@,
                    maybe(self.organization),
                    maybe(self.project),
                ) is None && header_views(headers@) == account_headers(
                    maybe(self.organization),
                    maybe(self.project),
                ),
                Err(e) => client_fault(
                    blank_chat_key(),
                    self.api_key@,
                    maybe(self.organization),
                    maybe(self.project),
                ) matches Some(fault) && e@ == ModelErrorView::Configuration(fault),
            },
    {
        client_headers(
            "model provider API key must not be empty",
            self.api_key.as_str(),
            &self.organization,
            &self.project,
        )
    }
}

/// A value with something under a key.
pub open spec fn set_member(j: JsonView, key: Seq<char>, value: JsonView) -> JsonView {
    match j {
        JsonView::Object(members) => JsonView::Object(with(members, key, value)),
        other => other,
    }
}

fn set_json(j: Json, key: &str, value: Json) -> (r: Json)
    ensures
        r@ == set_member(j@, key@, value@),
{
    match j {
        Json::Object(members) => {
            let mut members = members;
            insert_member(&mut members, key, value);
            Json::Object(members)
        },
        other => other,
    }
}

/// A message.
pub open spec fn chat_message(role: Seq<char>, content: JsonView) -> JsonView {
    JsonView::Object(seq![("content"@, content), ("role"@, JsonView::Text(role))])
}

fn chat_message_json(role: &str, content: Json) -> (r: Json)
    ensures
        r@ == chat_message(role@, content@),
{
    let mut o: Vec<(String, Json)> = Vec::new();
    put(&mut o, "content", content);
    put(&mut o, "role", Json::text(role));
    assert(member_views(o@) =~= chat_message(role@, content@)->Object_0);
    Json::Object(o)
}

/// A message with what was thought before it, if anything was.
pub open spec fn with_reasoning(message: JsonView, reasoning: Option<Seq<char>>) -> JsonView {
    match reasoning {
        Some(r) => set_member(message, "reasoning_content"@, JsonView::Text(r)),
        None => message,
    }
}

fn add_reasoning(message: Json, reasoning: Option<String>) -> (r: Json)
    ensures
        r@ == with_reasoning(message@, maybe(reasoning)),
{
    match reasoning {
        Some(r) => set_json(message, "reasoning_content", Json::Text(r)),
        None => message,
    }
}

/// Messages, and what was thought since.
pub ghost struct Talk {
    pub messages: Seq<JsonView>,
    pub reasoning: Option<Seq<char>>,
}

/// Messages in which a pending thought stands alone.
pub open spec fn flushed(t: Talk) -> Talk {
    match t.reasoning {
        Some(_) => Talk {
            messages: t.messages.push(
                with_reasoning(chat_message("assistant"@, JsonView::Null), t.reasoning),
            ),
            reasoning: None,
        },
        None => t,
    }
}

fn flush_pending_reasoning(messages: &mut Vec<Json>, pending: Option<String>)
    ensures
        views(final(messages)@) == flushed(
            Talk { messages: views(old(messages)@), reasoning: maybe(pending) },
        ).messages,
{
    if pending.is_some() {
        let message = add_reasoning(chat_message_json("assistant", Json::Null), pending);
        proof {
            lemma_views_push(messages@, message);
        }
        messages.push(message);
    }
}

/// Arguments that a provider takes back: an object, or an empty one in place of anything else.
pub open spec fn replayable(arguments: Seq<char>, parsed: Result<JsonView, Seq<char>>) -> Seq<char> {
    match parsed {
        Ok(JsonView::Object(_)) => arguments,
        _ => "{}"@,
    }
}

/// Finds arguments that a provider takes back, given what they are as JSON.
pub fn replayable_as(arguments: &str, parsed: &Result<Json, String>) -> (r: String)
    ensures
        r@ == replayable(
            arguments@,
            match *parsed {
                Ok(value) => Ok(value@),
                Err(e) => Err(e@),
            },
        ),
{
    match parsed {
        Ok(Json::Object(_)) => arguments.to_owned(),
        _ => "{}".to_owned(),
    }
}

/// Finds arguments that a provider takes back.
pub fn replayable_tool_arguments(arguments: &str) -> (r: String)
    ensures
        r@ == replayable(arguments@, json_parsed(arguments@)),
{
    replayable_as(arguments, &Json::parse(arguments))
}

/// A call in a message.
pub open spec fn chat_call(call_id: Seq<char>, name: Seq<char>, arguments: Seq<char>) -> JsonView {
    JsonView::Object(
        seq![
            (
                "function"@,
                JsonView::Object(
                    seq![
                        ("arguments"@, JsonView::Text(arguments)),
                        ("name"@, JsonView::Text(name)),
                    ],
                ),
            ),
            ("id"@, JsonView::Text(call_id)),
            ("type"@, JsonView::Text("function"@)),
        ],
    )
}

fn chat_call_json(call_id: &str, name: &str, arguments: String) -> (r: Json)
    ensures
        r@ == chat_call(call_id@, name@, arguments@),
{
    let mut function: Vec<(String, Json)> = Vec::new();
    put(&mut function, "arguments", Json::Text(arguments));
    put(&mut function, "name", Json::text(name));
    assert(member_views(function@) =~= seq![
        ("arguments"@, JsonView::Text(arguments@)),
        ("name"@, JsonView::Text(name@)),
    ]);
    let mut o: Vec<(String, Json)> = Vec::new();
    put(&mut o, "function", Json::Object(function));
    put(&mut o, "id", Json::text(call_id));
    put(&mut o, "type", Json::text("function"));
    assert(member_views(o@) =~= chat_call(call_id@, name@, arguments@)->Object_0);
    Json::Object(o)
}

/// Whether the last message is the assistant's.
pub open spec fn assistant_last(messages: Seq<JsonView>) -> bool {
    messages.len() > 0 && text_field(messages.last(), "role"@) == Some("assistant"@)
}

/// The calls of a message.
pub open spec fn message_calls(message: JsonView) -> Seq<JsonView> {
    match items_field(message, "tool_calls"@) {
        Some(calls) => calls,
        None => Seq::empty(),
    }
}

/// A message of the assistant that holds calls only.
pub open spec fn calling_message(reasoning: Option<Seq<char>>) -> JsonView {
    with_reasoning(
        set_member(
            chat_message("assistant"@, JsonView::Null),
            "tool_calls"@,
            JsonView::Array(Seq::empty()),
        ),
        reasoning,
    )
}

/// The message that a call joins: the assistant's last, or a new one. A pending thought goes into
/// it, unless it holds one already.
pub open spec fn message_for_call(t: Talk) -> JsonView {
    if assistant_last(t.messages) {
        if field(t.messages.last(), "reasoning_content"@) is None {
            with_reasoning(t.messages.last(), t.reasoning)
        } else {
            t.messages.last()
        }
    } else {
        calling_message(t.reasoning)
    }
}

/// Messages with one call more.
pub open spec fn with_call(t: Talk, call: JsonView) -> Talk {
    let message = message_for_call(t);
    Talk {
        messages: (if assistant_last(t.messages) {
            t.messages.drop_last()
        } else {
            t.messages
        }).push(
            set_member(message, "tool_calls"@, JsonView::Array(message_calls(message).push(call))),
        ),
        reasoning: None,
    }
}

fn append_tool_call(
    messages: &mut Vec<Json>,
    pending: Option<String>,
    call_id: &str,
    name: &str,
    arguments: &str,
)
    ensures
        views(final(messages)@) == with_call(
            Talk { messages: views(old(messages)@), reasoning: maybe(pending) },
            chat_call(call_id@, name@, replayable(arguments@, json_parsed(arguments@))),
        ).messages,
{
    let ghost before = views(messages@);
    let ghost t = Talk { messages: before, reasoning: maybe(pending) };
    let joins = if messages.len() > 0 {
        match messages[messages.len() - 1].text_at("role") {
            Some(role) => same(role, "assistant"),
            None => false,
        }
    } else {
        false
    };
    assert(messages@.len() > 0 ==> before.last() == messages@.last()@);
    assert(joins == assistant_last(before));
    let message = if joins {
        match messages.pop() {
            Some(last) => {
                assert(views(messages@) =~= before.drop_last());
                if last.get("reasoning_content").is_none() {
                    add_reasoning(last, pending)
                } else {
                    last
                }
            },
            None => Json::Null,
        }
    } else {
        let calls: Vec<Json> = Vec::new();
        assert(views(calls@) =~= Seq::<JsonView>::empty());
        add_reasoning(
            set_json(
                chat_message_json("assistant", Json::Null),
                "tool_calls",
                Json::Array(calls),
            ),
            pending,
        )
    };
    assert(message@ == message_for_call(t));
    let mut calls = match message.items_at("tool_calls") {
        Some(calls) => copy_values(calls),
        None => {
            let none: Vec<Json> = Vec::new();
            assert(views(none@) =~= Seq::<JsonView>::empty());
            none
        },
    };
    let call = chat_call_json(call_id, name, replayable_tool_arguments(arguments));
    proof {
        lemma_views_push(calls@, call);
    }
    calls.push(call);
    let message = set_json(message, "tool_calls", Json::Array(calls));
    proof {
        lemma_views_push(messages@, message);
    }
    messages.push(message);
}

/// The text of a part of an item's content.
pub open spec fn part_text(part: JsonView) -> Seq<char> {
    let told = match field(part, "text"@) {
        Some(t) => Some(t),
        None => field(part, "content"@),
    };
    match told {
        Some(JsonView::Text(t)) => t,
        _ => Seq::empty(),
    }
}

/// The text of parts, one after the other.
pub open spec fn parts_text(parts: Seq<JsonView>) -> Seq<char>
    decreases parts.len(),
{
    if parts.len() == 0 {
        Seq::empty()
    } else {
        parts_text(parts.drop_last()) + part_text(parts.last())
    }
}

/// The text of an item, empty where it has none.
pub open spec fn item_text(item: JsonView) -> Seq<char> {
    match field(item, "content"@) {
        Some(JsonView::Text(t)) => t,
        Some(JsonView::Array(parts)) => parts_text(parts),
        _ => Seq::empty(),
    }
}

/// Finds the text of an item, where it has one.
pub fn response_item_text(item: &Json) -> (r: Option<String>)
    ensures
        maybe(r) == (if item_text(item@).len() > 0 {
            Some(item_text(item@))
        } else {
            None
        }),
{
    let text = match item.get("content") {
        Some(Json::Text(t)) => t.clone(),
        Some(Json::Array(parts)) => {
            let mut text = String::new();
            let mut i: usize = 0;
            assert(text@ =~= parts_text(views(parts@).take(0)));
            while i < parts.len()
                invariant
                    i <= parts@.len(),
                    text@ == parts_text(views(parts@).take(i as int)),
                decreases parts.len() - i,
            {
                let part = &parts[i];
                let told = match part.get("text") {
                    Some(t) => Some(t),
                    None => part.get("content"),
                };
                assert(views(parts@).take(i + 1).drop_last() =~= views(parts@).take(i as int));
                assert(views(parts@).take(i + 1).last() == part@);
                match told {
                    Some(Json::Text(t)) => {
                        text.append(t.as_str());
                    },
                    _ => {
                        assert(text@ + Seq::<char>::empty() =~= text@);
                    },
                }
                i = i + 1;
            }
            assert(views(parts@).take(i as int) =~= views(parts@));
            text
        },
        _ => String::new(),
    };
    if text.as_str().is_empty() {
        None
    } else {
        Some(text)
    }
}

/// What a tool returned, as text.
pub open spec fn output_text(output: JsonView) -> Seq<char> {
    match output {
        JsonView::Text(t) => t,
        other => json_text(other),
    }
}

/// Writes what a tool returned as text.
pub fn tool_output_content(output: &Json) -> (r: String)
    ensures
        r@ == output_text(output@),
{
    match output {
        Json::Text(t) => t.clone(),
        other => other.render(),
    }
}

/// What a tool returned, as a message.
pub open spec fn tool_message(call_id: Seq<char>, output: JsonView) -> JsonView {
    JsonView::Object(
        seq![
            ("content"@, JsonView::Text(output_text(output))),
            ("role"@, JsonView::Text("tool"@)),
            ("tool_call_id"@, JsonView::Text(call_id)),
        ],
    )
}

fn tool_message_json(call_id: &str, output: &Json) -> (r: Json)
    ensures
        r@ == tool_message(call_id@, output@),
{
    let mut o: Vec<(String, Json)> = Vec::new();
    put(&mut o, "content", Json::Text(tool_output_content(output)));
    put(&mut o, "role", Json::text("tool"));
    put(&mut o, "tool_call_id", Json::text(call_id));
    assert(member_views(o@) =~= tool_message(call_id@, output@)->Object_0);
    Json::Object(o)
}

/// The role of a message in this API.
pub open spec fn chat_role(role: MessageRole) -> Seq<char> {
    match role {
        MessageRole::User => "user"@,
        MessageRole::Assistant => "assistant"@,
        MessageRole::Developer => "system"@,
    }
}

/// Messages after a message of the history.
pub open spec fn after_message(t: Talk, role: MessageRole, content: Seq<char>) -> Talk {
    let message = chat_message(chat_role(role), JsonView::Text(content));
    if role == MessageRole::Assistant {
        Talk { messages: t.messages.push(with_reasoning(message, t.reasoning)), reasoning: None }
    } else {
        Talk { messages: flushed(t).messages.push(message), reasoning: None }
    }
}

/// A text that a response item must have, or what is said where it has none.
pub open spec fn required(item: JsonView, key: Seq<char>) -> Result<Seq<char>, Seq<char>> {
    match text_field(item, key) {
        Some(t) => Ok(t),
        None => Err("response item missing "@ + key),
    }
}

fn required_item_string<'a>(item: &'a Json, key: &str) -> (r: Result<&'a str, ModelError>)
    ensures
        match r {
            Ok(t) => required(item@, key@) == Ok::<Seq<char>, Seq<char>>(t@),
            Err(e) => required(item@, key@) matches Err(m) && e@
                == ModelErrorView::Configuration(m),
        },
{
    match item.text_at(key) {
        Some(t) => Ok(t),
        None => {
            let mut message = "response item missing ".to_owned();
            message.append(key);
            Err(ModelError::Configuration(message))
        },
    }
}

/// Messages after an item of a response.
pub open spec fn after_response_item(t: Talk, item: JsonView) -> Result<Talk, Seq<char>> {
    let kind = text_field(item, "type"@);
    let text = item_text(item);
    if kind == Some("reasoning"@) {
        Ok(
            if text.len() > 0 {
                Talk {
                    reasoning: Some(
                        match t.reasoning {
                            Some(r) => r + text,
                            None => text,
                        },
                    ),
                    ..t
                }
            } else {
                t
            },
        )
    } else if kind == Some("message"@) {
        Ok(
            if text.len() > 0 {
                after_message(t, MessageRole::Assistant, text)
            } else {
                t
            },
        )
    } else if kind == Some("function_call"@) {
        match (required(item, "call_id"@), required(item, "name"@), required(item, "arguments"@)) {
            (Err(e), _, _) => Err(e),
            (_, Err(e), _) => Err(e),
            (_, _, Err(e)) => Err(e),
            (Ok(call_id), Ok(name), Ok(arguments)) => Ok(
                with_call(
                    t,
                    chat_call(call_id, name, replayable(arguments, json_parsed(arguments))),
                ),
            ),
        }
    } else {
        Ok(t)
    }
}

/// Messages after an item of the history.
pub open spec fn after_item(t: Talk, item: ItemView) -> Result<Talk, Seq<char>> {
    match item {
        ItemView::Message { role, content } => Ok(after_message(t, role, content)),
        ItemView::FunctionCall { call_id, name, arguments } => Ok(
            with_call(t, chat_call(call_id, name, replayable(arguments, json_parsed(arguments)))),
        ),
        ItemView::FunctionCallOutput { call_id, output } => Ok(
            Talk {
                messages: flushed(t).messages.push(tool_message(call_id, output)),
                reasoning: None,
            },
        ),
        ItemView::ResponseItem { item } => after_response_item(t, item),
    }
}

/// Messages after a history.
pub open spec fn after_items(t: Talk, items: Seq<ItemView>) -> Result<Talk, Seq<char>>
    decreases items.len(),
{
    if items.len() == 0 {
        Ok(t)
    } else {
        match after_items(t, items.drop_last()) {
            Ok(t) => after_item(t, items.last()),
            Err(e) => Err(e),
        }
    }
}

/// The messages before a history.
pub open spec fn opening(instructions: Seq<char>) -> Talk {
    Talk {
        messages: if trimmed(instructions).len() == 0 {
            Seq::empty()
        } else {
            seq![chat_message("system"@, JsonView::Text(instructions))]
        },
        reasoning: None,
    }
}

/// The messages of a request, or what is wrong with its history.
pub open spec fn talk(request: RequestView) -> Result<Seq<JsonView>, Seq<char>> {
    match after_items(opening(request.instructions), request.input) {
        Ok(t) => Ok(flushed(t).messages),
        Err(e) => Err(e),
    }
}

proof fn lemma_faults_last(t: Talk, items: Seq<ItemView>, i: int)
    requires
        0 <= i <= items.len(),
        after_items(t, items.take(i)) is Err,
    ensures
        after_items(t, items) == after_items(t, items.take(i)),
    decreases items.len() - i,
{
    if i == items.len() {
        assert(items.take(i) =~= items);
    } else {
        assert(items.take(i + 1).drop_last() =~= items.take(i));
        lemma_faults_last(t, items, i + 1);
    }
}

fn append_message(
    messages: &mut Vec<Json>,
    pending: Option<String>,
    role: MessageRole,
    content: &str,
)
    ensures
        views(final(messages)@) == after_message(
            Talk { messages: views(old(messages)@), reasoning: maybe(pending) },
            role,
            content@,
        ).messages,
{
    let name = match role {
        MessageRole::User => "user",
        MessageRole::Assistant => "assistant",
        MessageRole::Developer => "system",
    };
    let message = chat_message_json(name, Json::text(content));
    let message = if role == MessageRole::Assistant {
        add_reasoning(message, pending)
    } else {
        flush_pending_reasoning(messages, pending);
        message
    };
    proof {
        lemma_views_push(messages@, message);
    }
    messages.push(message);
}

fn append_response_item(messages: &mut Vec<Json>, pending: &mut Option<String>, item: &Json) -> (r:
    Result<(), ModelError>)
    ensures
        ({
            let before = Talk { messages: views(old(messages)@), reasoning: maybe(*old(pending)) };
            match r {
                Ok(()) => after_response_item(before, item@) == Ok::<Talk, Seq<char>>(
                    Talk {
                        messages: views(final(messages)@),
                        reasoning: maybe(*final(pending)),
                    },
                ),
                Err(e) => after_response_item(before, item@) matches Err(m) && e@
                    == ModelErrorView::Configuration(m),
            }
        }),
{
    let kind = match item.text_at("type") {
        Some(kind) => kind,
        None => {
            return Ok(());
        },
    };
    if same(kind, "reasoning") {
        if let Some(text) = response_item_text(item) {
            let mut thought = match pending.take() {
                Some(thought) => thought,
                None => String::new(),
            };
            thought.append(text.as_str());
            assert(Seq::<char>::empty() + text@ =~= text@);
            *pending = Some(thought);
        }
    } else if same(kind, "message") {
        if let Some(text) = response_item_text(item) {
            let thought = pending.take();
            append_message(messages, thought, MessageRole::Assistant, text.as_str());
        }
    } else if same(kind, "function_call") {
        let call_id = required_item_string(item, "call_id")?;
        let name = required_item_string(item, "name")?;
        let arguments = required_item_string(item, "arguments")?;
        let thought = pending.take();
        append_tool_call(messages, thought, call_id, name, arguments);
    }
    Ok(())
}

fn append_item(messages: &mut Vec<Json>, pending: &mut Option<String>, item: &ModelInputItem) -> (r:
    Result<(), ModelError>)
    ensures
        ({
            let before = Talk { messages: views(old(messages)@), reasoning: maybe(*old(pending)) };
            match r {
                Ok(()) => after_item(before, item@) == Ok::<Talk, Seq<char>>(
                    Talk {
                        messages: views(final(messages)@),
                        reasoning: maybe(*final(pending)),
                    },
                ),
                Err(e) => after_item(before, item@) matches Err(m) && e@
                    == ModelErrorView::Configuration(m),
            }
        }),
{
    match item {
        ModelInputItem::Message { role, content } => {
            let thought = pending.take();
            append_message(messages, thought, *role, content.as_str());
            Ok(())
        },
        ModelInputItem::FunctionCall { call_id, name, arguments } => {
            let thought = pending.take();
            append_tool_call(
                messages,
                thought,
                call_id.as_str(),
                name.as_str(),
                arguments.as_str(),
            );
            Ok(())
        },
        ModelInputItem::FunctionCallOutput { call_id, output } => {
            let thought = pending.take();
            flush_pending_reasoning(messages, thought);
            let message = tool_message_json(call_id.as_str(), output);
            proof {
                lemma_views_push(messages@, message);
            }
            messages.push(message);
            Ok(())
        },
        ModelInputItem::ResponseItem { item } => append_response_item(messages, pending, item),
    }
}

/// Writes the messages of a request.
pub fn chat_messages(request: &ModelRequest) -> (r: Result<Vec<Json>, ModelError>)
    ensures
        match r {
            Ok(messages) => talk(request@) == Ok::<Seq<JsonView>, Seq<char>>(views(messages@)),
            Err(e) => talk(request@) matches Err(m) && e@ == ModelErrorView::Configuration(m),
        },
{
    let mut messages: Vec<Json> = Vec::new();
    assert(views(messages@) =~= Seq::<JsonView>::empty());
    if !is_blank(request.instructions.as_str()) {
        let message = chat_message_json("system", Json::text(request.instructions.as_str()));
        messages.push(message);
        assert(views(messages@) =~= seq![message@]);
    }
    let mut pending: Option<String> = None;
    let ghost start = opening(request@.instructions);
    let ghost items = request@.input;
    assert(views(messages@) == start.messages);
    assert(items.take(0) =~= Seq::<ItemView>::empty());
    let mut i: usize = 0;
    while i < request.input.len()
        invariant
            i <= request.input@.len(),
            items == request@.input,
            start == opening(request@.instructions),
            after_items(start, items.take(i as int)) == Ok::<Talk, Seq<char>>(
                Talk { messages: views(messages@), reasoning: maybe(pending) },
            ),
        decreases request.input.len() - i,
    {
        assert(items.take(i + 1).drop_last() =~= items.take(i as int));
        assert(items.take(i + 1).last() == request.input@[i as int]@);
        match append_item(&mut messages, &mut pending, &request.input[i]) {
            Ok(()) => {},
            Err(e) => {
                proof {
                    lemma_faults_last(start, items, i + 1);
                }
                return Err(e);
            },
        }
        i = i + 1;
    }
    assert(items.take(i as int) =~= items);
    flush_pending_reasoning(&mut messages, pending);
    Ok(messages)
}

/// A tool, as the API takes it.
pub open spec fn chat_tool(tool: ToolView) -> JsonView {
    JsonView::Object(
        seq![
            (
                "function"@,
                JsonView::Object(
                    seq![
                        ("description"@, JsonView::Text(tool.description)),
                        ("name"@, JsonView::Text(tool.name)),
                        ("parameters"@, tool.input_schema),
                    ],
                ),
            ),
            ("type"@, JsonView::Text("function"@)),
        ],
    )
}

/// The tools of a request: none where they may not be called.
pub open spec fn chat_tools(request: RequestView) -> Seq<JsonView> {
    if request.tool_choice == ModelToolChoice::Never {
        Seq::empty()
    } else {
        request.tools.map_values(|t: ToolView| chat_tool(t))
    }
}

fn chat_tools_json(request: &ModelRequest) -> (r: Vec<Json>)
    ensures
        views(r@) == chat_tools(request@),
{
    let mut r: Vec<Json> = Vec::new();
    if request.tool_choice == ModelToolChoice::Never {
        assert(views(r@) =~= Seq::<JsonView>::empty());
        return r;
    }
    let ghost all = request@.tools.map_values(|t: ToolView| chat_tool(t));
    let mut i: usize = 0;
    assert(views(r@) =~= all.take(0));
    while i < request.tools.len()
        invariant
            i <= request.tools.len(),
            all == request@.tools.map_values(|t: ToolView| chat_tool(t)),
            views(r@) == all.take(i as int),
        decreases request.tools.len() - i,
    {
        let tool = &request.tools[i];
        assert(request@.tools[i as int] == tool@);
        let mut function: Vec<(String, Json)> = Vec::new();
        put(&mut function, "description", Json::text(tool.description.as_str()));
        put(&mut function, "name", Json::text(tool.name.as_str()));
        put(&mut function, "parameters", tool.input_schema.clone());
        assert(member_views(function@) =~= seq![
            ("description"@, JsonView::Text(tool@.description)),
            ("name"@, JsonView::Text(tool@.name)),
            ("parameters"@, tool@.input_schema),
        ]);
        let mut o: Vec<(String, Json)> = Vec::new();
        put(&mut o, "function", Json::Object(function));
        put(&mut o, "type", Json::text("function"));
        assert(member_views(o@) =~= chat_tool(tool@)->Object_0);
        let item = Json::Object(o);
        r.push(item);
        assert(views(r@) =~= all.take(i + 1));
        i = i + 1;
    }
    assert(all.take(i as int) =~= all);
    r
}

/// The effort of a request: its own, or the configured one.
pub open spec fn chat_effort(
    request: RequestView,
    configured: Option<OpenAiReasoningEffort>,
) -> Option<ReasoningEffort> {
    match request.reasoning_effort {
        Some(e) => Some(e),
        None => match configured {
            Some(e) => Some(protocol_effort(e)),
            None => None,
        },
    }
}

/// What is said of the effort. Two of the dialects say apart whether there is any.
pub open spec fn effort_member(
    effort: Option<ReasoningEffort>,
    dialect: OpenAiChatCompatibility,
) -> Option<JsonView> {
    match effort {
        Some(e) => if dialect == OpenAiChatCompatibility::Generic || e != ReasoningEffort::Off {
            Some(JsonView::Text(e.text()))
        } else {
            None
        },
        None => None,
    }
}

/// What is said of whether there is any effort.
pub open spec fn thinking_member(
    effort: Option<ReasoningEffort>,
    dialect: OpenAiChatCompatibility,
) -> Option<JsonView> {
    match effort {
        Some(e) => if dialect == OpenAiChatCompatibility::Generic {
            None
        } else if e == ReasoningEffort::Off {
            Some(one("type"@, JsonView::Text("disabled"@)))
        } else {
            Some(one("type"@, JsonView::Text("enabled"@)))
        },
        None => None,
    }
}

/// The form of a response, as a dialect takes it.
pub open spec fn chat_format(format: FormatView, dialect: OpenAiChatCompatibility) -> JsonView {
    if dialect == OpenAiChatCompatibility::Generic {
        JsonView::Object(
            seq![
                (
                    "json_schema"@,
                    JsonView::Object(
                        seq![
                            ("name"@, JsonView::Text(format.name)),
                            ("schema"@, format.schema),
                            ("strict"@, JsonView::Bool(format.strict)),
                        ],
                    ),
                ),
                ("type"@, JsonView::Text("json_schema"@)),
            ],
        )
    } else {
        one("type"@, JsonView::Text("json_object"@))
    }
}

fn chat_format_json(format: &ModelResponseFormat, dialect: OpenAiChatCompatibility) -> (r: Json)
    ensures
        r@ == chat_format(format@, dialect),
{
    if dialect == OpenAiChatCompatibility::Generic {
        let mut schema: Vec<(String, Json)> = Vec::new();
        put(&mut schema, "name", Json::text(format.name.as_str()));
        put(&mut schema, "schema", format.schema.clone());
        put(&mut schema, "strict", Json::Bool(format.strict));
        assert(member_views(schema@) =~= seq![
            ("name"@, JsonView::Text(format@.name)),
            ("schema"@, format@.schema),
            ("strict"@, JsonView::Bool(format@.strict)),
        ]);
        let mut o: Vec<(String, Json)> = Vec::new();
        put(&mut o, "json_schema", Json::Object(schema));
        put(&mut o, "type", Json::text("json_schema"));
        assert(member_views(o@) =~= chat_format(format@, dialect)->Object_0);
        Json::Object(o)
    } else {
        one_json("type", Json::text("json_object"))
    }
}

/// A value where something holds.
pub open spec fn when(holds: bool, value: JsonView) -> Option<JsonView> {
    if holds {
        Some(value)
    } else {
        None
    }
}

/// The members of a request's body up to that on streaming.
pub open spec fn chat_head(
    request: RequestView,
    messages: Seq<JsonView>,
    effort: Option<OpenAiReasoningEffort>,
    dialect: OpenAiChatCompatibility,
) -> Seq<(Seq<char>, JsonView)> {
    seq![("messages"@, JsonView::Array(messages)), ("model"@, JsonView::Text(request.model))]
        + member_if(
        "parallel_tool_calls"@,
        when(
            chat_tools(request).len() > 0 && dialect == OpenAiChatCompatibility::Generic,
            JsonView::Bool(request.parallel_tool_calls),
        ),
    ) + member_if("reasoning_effort"@, effort_member(chat_effort(request, effort), dialect))
        + member_if(
        "response_format"@,
        match request.response_format {
            Some(format) => Some(chat_format(format, dialect)),
            None => None,
        },
    )
}

/// The members of a request's body from that on streaming.
pub open spec fn chat_tail(
    request: RequestView,
    effort: Option<OpenAiReasoningEffort>,
    dialect: OpenAiChatCompatibility,
) -> Seq<(Seq<char>, JsonView)> {
    seq![("stream"@, JsonView::Bool(true))] + member_if(
        "stream_options"@,
        when(
            dialect != OpenAiChatCompatibility::Glm,
            one("include_usage"@, JsonView::Bool(true)),
        ),
    ) + member_if("thinking"@, thinking_member(chat_effort(request, effort), dialect)) + member_if(
        "tool_choice"@,
        when(chat_tools(request).len() > 0, JsonView::Text(request.tool_choice.text())),
    ) + member_if(
        "tool_stream"@,
        when(
            chat_tools(request).len() > 0 && dialect == OpenAiChatCompatibility::Glm,
            JsonView::Bool(true),
        ),
    ) + member_if(
        "tools"@,
        when(chat_tools(request).len() > 0, JsonView::Array(chat_tools(request))),
    )
}

/// The body of a request, or what is wrong with it.
pub open spec fn chat_body(
    request: RequestView,
    provider: Seq<char>,
    effort: Option<OpenAiReasoningEffort>,
    dialect: OpenAiChatCompatibility,
) -> Result<JsonView, Seq<char>> {
    if request.hosted_tools.len() > 0 {
        Err(
            "provider "@ + debug_text(provider)
                + " does not support hosted tools through Chat Completions"@,
        )
    } else {
        match talk(request) {
            Ok(messages) => Ok(
                JsonView::Object(
                    chat_head(request, messages, effort, dialect) + chat_tail(
                        request,
                        effort,
                        dialect,
                    ),
                ),
            ),
            Err(e) => Err(e),
        }
    }
}

fn put_chat_head(
    o: &mut Vec<(String, Json)>,
    request: &ModelRequest,
    messages: Vec<Json>,
    offers: bool,
    effort: Option<ReasoningEffort>,
    configured: Ghost<Option<OpenAiReasoningEffort>>,
    dialect: OpenAiChatCompatibility,
)
    requires
        offers == (chat_tools(request@).len() > 0),
        effort == chat_effort(request@, configured@),
    ensures
        member_views(final(o)@) == member_views(old(o)@) + chat_head(
            request@,
            views(messages@),
            configured@,
            dialect,
        ),
{
    let ghost before = member_views(o@);
    put(o, "messages", Json::Array(messages));
    put(o, "model", Json::text(request.model.as_str()));
    put_if(
        o,
        "parallel_tool_calls",
        if offers && dialect == OpenAiChatCompatibility::Generic {
            Some(Json::Bool(request.parallel_tool_calls))
        } else {
            None
        },
    );
    put_if(
        o,
        "reasoning_effort",
        match effort {
            Some(e) => {
                if dialect == OpenAiChatCompatibility::Generic || e != ReasoningEffort::Off {
                    Some(Json::text(e.as_str()))
                } else {
                    None
                }
            },
            None => None,
        },
    );
    put_if(
        o,
        "response_format",
        match &request.response_format {
            Some(format) => Some(chat_format_json(format, dialect)),
            None => None,
        },
    );
    assert(member_views(o@) =~= before + chat_head(
        request@,
        views(messages@),
        configured@,
        dialect,
    ));
}

fn put_chat_tail(
    o: &mut Vec<(String, Json)>,
    request: &ModelRequest,
    tools: Vec<Json>,
    effort: Option<ReasoningEffort>,
    configured: Ghost<Option<OpenAiReasoningEffort>>,
    dialect: OpenAiChatCompatibility,
)
    requires
        views(tools@) == chat_tools(request@),
        effort == chat_effort(request@, configured@),
    ensures
        member_views(final(o)@) == member_views(old(o)@) + chat_tail(
            request@,
            configured@,
            dialect,
        ),
{
    let ghost before = member_views(o@);
    let offers = tools.len() > 0;
    assert(offers == (chat_tools(request@).len() > 0));
    put(o, "stream", Json::Bool(true));
    put_if(
        o,
        "stream_options",
        if dialect != OpenAiChatCompatibility::Glm {
            Some(one_json("include_usage", Json::Bool(true)))
        } else {
            None
        },
    );
    put_if(
        o,
        "thinking",
        match effort {
            Some(e) => {
                if dialect == OpenAiChatCompatibility::Generic {
                    None
                } else if e == ReasoningEffort::Off {
                    Some(one_json("type", Json::text("disabled")))
                } else {
                    Some(one_json("type", Json::text("enabled")))
                }
            },
            None => None,
        },
    );
    put_if(
        o,
        "tool_choice",
        if offers {
            Some(Json::text(request.tool_choice.as_str()))
        } else {
            None
        },
    );
    put_if(
        o,
        "tool_stream",
        if offers && dialect == OpenAiChatCompatibility::Glm {
            Some(Json::Bool(true))
        } else {
            None
        },
    );
    put_if(
        o,
        "tools",
        if offers {
            Some(Json::Array(tools))
        } else {
            None
        },
    );
    assert(member_views(o@) =~= before + chat_tail(request@, configured@, dialect));
}

/// Writes the body of a request.
pub fn request_body(request: &ModelRequest, config: &OpenAiChatConfig) -> (r: Result<
    Json,
    ModelError,
>)
    ensures
        match r {
            Ok(body) => chat_body(
                request@,
                config.provider_id@,
                config.reasoning_effort,
                config.compatibility,
            ) == Ok::<JsonView, Seq<char>>(body@),
            Err(e) => chat_body(
                request@,
                config.provider_id@,
                config.reasoning_effort,
                config.compatibility,
            ) matches Err(m) && e@ == ModelErrorView::Configuration(m),
        },
{
    if request.hosted_tools.len() > 0 {
        let mut message = "provider ".to_owned();
        let provider = quoted(config.provider_id.as_str());
        message.append(provider.as_str());
        message.append(" does not support hosted tools through Chat Completions");
        return Err(ModelError::Configuration(message));
    }
    let messages = chat_messages(request)?;
    let tools = chat_tools_json(request);
    let offers = tools.len() > 0;
    assert(offers == (chat_tools(request@).len() > 0));
    let effort = match request.reasoning_effort {
        Some(e) => Some(e),
        None => match config.reasoning_effort {
            Some(e) => Some(protocol_reasoning_effort(e)),
            None => None,
        },
    };
    let ghost head = chat_head(
        request@,
        views(messages@),
        config.reasoning_effort,
        config.compatibility,
    );
    let mut o: Vec<(String, Json)> = Vec::new();
    assert(member_views(o@) =~= Seq::<(Seq<char>, JsonView)>::empty());
    put_chat_head(
        &mut o,
        request,
        messages,
        offers,
        effort,
        Ghost(config.reasoning_effort),
        config.compatibility,
    );
    assert(member_views(o@) =~= head);
    put_chat_tail(
        &mut o,
        request,
        tools,
        effort,
        Ghost(config.reasoning_effort),
        config.compatibility,
    );
    Ok(Json::Object(o))
}

/// What is told of a request.
pub open spec fn chat_told(
    metadata: ModelRequestMetadata,
    provider: Seq<char>,
    request: RequestView,
) -> bool {
    &&& maybe(metadata.provider) == Some(provider)
    &&& maybe(metadata.api) == Some("open_ai_chat_completions"@)
    &&& metadata.model_profile is None
    &&& maybe(metadata.upstream_model) == Some(request.model)
    &&& metadata.transport == ModelTransport::HttpSse
    &&& metadata.prompt_cache_mode == PromptCacheMode::Implicit
    &&& maybe(metadata.prompt_cache_key) == cache_key_of(request)
    &&& !metadata.prompt_cache_breakpoint
    &&& !metadata.used_previous_response_id
    &&& maybe(metadata.continuation_miss_reason) == Some("chat_completions_stateless"@)
    &&& metadata.websocket_fallback_reason is None
}

/// Says what is told of a request.
pub fn chat_metadata(request: &ModelRequest, config: &OpenAiChatConfig) -> (r: ModelRequestMetadata)
    ensures
        chat_told(r, config.provider_id@, request@),
{
    ModelRequestMetadata {
        provider: Some(config.provider_id.clone()),
        api: Some("open_ai_chat_completions".to_owned()),
        model_profile: None,
        upstream_model: Some(request.model.clone()),
        transport: ModelTransport::HttpSse,
        prompt_cache_mode: PromptCacheMode::Implicit,
        prompt_cache_key: prompt_cache_key(request),
        prompt_cache_breakpoint: false,
        used_previous_response_id: false,
        continuation_miss_reason: Some("chat_completions_stateless".to_owned()),
        websocket_fallback_reason: None,
    }
}

/// No thought is lost before a message of the user: it stands in a message of the assistant right
/// before.
pub proof fn law_thoughts_stand_before_the_user(t: Talk, content: Seq<char>, thought: Seq<char>)
    requires
        t.reasoning == Some(thought),
    ensures
        ({
            let after = after_message(t, MessageRole::User, content);
            &&& after.reasoning is None
            &&& after.messages == t.messages.push(
                with_reasoning(chat_message("assistant"@, JsonView::Null), Some(thought)),
            ).push(chat_message("user"@, JsonView::Text(content)))
        }),
{
}

/// A provider never gets back arguments that are no object.
pub proof fn law_arguments_are_objects(arguments: Seq<char>)
    ensures
        replayable(arguments, json_parsed(arguments)) == arguments || replayable(
            arguments,
            json_parsed(arguments),
        ) == "{}"@,
        replayable(arguments, json_parsed(arguments)) == arguments && arguments != "{}"@
            ==> json_parsed(arguments) matches Ok(JsonView::Object(_)),
{
}

} // verus!
