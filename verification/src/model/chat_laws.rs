//! What providers that speak the Chat Completions API are told of a request.

use crate::json::{
    field, field2, items_field, json_parsed, json_text, lookup, text_field, text_in, with, JsonView,
};
use crate::model::chat::{
    after_item, after_items, after_message, assistant_last, chat_body, chat_call, chat_effort,
    chat_format, chat_head, chat_message, chat_role, chat_tail, chat_tool, chat_tools,
    effort_member, flushed, item_text, message_calls, message_for_call, opening, parts_text,
    replayable, set_member, talk, thinking_member, tool_message, OpenAiChatCompatibility, Talk,
};
use crate::model::laws::{lemma_lookup_at, lemma_lookup_if, lemma_lookup_in_both};
use crate::model::responses::{member_if, one, protocol_effort, OpenAiReasoningEffort};
use crate::protocol::model::{
    ItemView, MessageRole, ModelToolChoice, ReasoningEffort, RequestView, ToolView,
};
use vstd::prelude::*;

verus! {

/// Setting a member changes what is under its key, and nothing else.
pub proof fn lemma_lookup_with(
    members: Seq<(Seq<char>, JsonView)>,
    key: Seq<char>,
    value: JsonView,
    other: Seq<char>,
)
    ensures
        lookup(with(members, key, value), other) == (if other == key {
            Some(value)
        } else {
            lookup(members, other)
        }),
    decreases members.len(),
{
    let made = with(members, key, value);
    if members.len() == 0 {
        assert(made.drop_first() =~= Seq::<(Seq<char>, JsonView)>::empty());
    } else if members[0].0 == key {
        assert(made.drop_first() =~= members.drop_first());
    } else if crate::text::precedes(key, members[0].0) {
        assert(made.drop_first() =~= members);
    } else {
        assert(made.drop_first() =~= with(members.drop_first(), key, value));
        lemma_lookup_with(members.drop_first(), key, value, other);
    }
}

/// Setting a member of an object changes what is under its key, and nothing else.
pub proof fn lemma_set_member(j: JsonView, key: Seq<char>, value: JsonView, other: Seq<char>)
    requires
        j is Object,
    ensures
        set_member(j, key, value) is Object,
        field(set_member(j, key, value), other) == (if other == key {
            Some(value)
        } else {
            field(j, other)
        }),
{
    lemma_lookup_with(j->Object_0, key, value, other);
}

proof fn lemma_message(role: Seq<char>, content: JsonView, key: Seq<char>)
    ensures
        chat_message(role, content) is Object,
        field(chat_message(role, content), "content"@) == Some(content),
        field(chat_message(role, content), "role"@) == Some(JsonView::Text(role)),
        key != "content"@ && key != "role"@ ==> field(chat_message(role, content), key) is None,
{
    reveal_strlit("role");
    reveal_strlit("content");
    assert("role"@.len() == 4);
    assert("content"@.len() == 7);
    let made = chat_message(role, content)->Object_0;
    lemma_lookup_at(made, "content"@, 0);
    lemma_lookup_at(made, "role"@, 1);
    if key != "content"@ && key != "role"@ {
        lemma_lookup_at(made, key, 2);
    }
}

/// Whether a message was thought over: it says what was thought before it.
pub open spec fn thought_over(message: JsonView, thought: Option<Seq<char>>) -> bool {
    thought matches Some(t) ==> text_field(message, "reasoning_content"@) == Some(t)
}

/// A message of the history is the last message then: its role, its content, and what the assistant
/// thought before it. Every message before stays, and a thought that belongs to none stands in a message
/// of the assistant before it.
pub proof fn law_messages_are_told(t: Talk, role: MessageRole, content: Seq<char>, i: int)
    ensures
        ({
            let after = after_message(t, role, content);
            let n = after.messages.len() as int;
            &&& after.reasoning is None
            &&& n > t.messages.len()
            &&& 0 <= i < t.messages.len() ==> after.messages[i] == t.messages[i]
            &&& text_field(after.messages[n - 1], "content"@) == Some(content)
            &&& text_field(after.messages[n - 1], "role"@) == Some(
                match role {
                    MessageRole::User => "user"@,
                    MessageRole::Assistant => "assistant"@,
                    MessageRole::Developer => "system"@,
                },
            )
            &&& role == MessageRole::Assistant ==> n == t.messages.len() + 1 && thought_over(
                after.messages[n - 1],
                t.reasoning,
            )
            &&& role != MessageRole::Assistant && t.reasoning is Some ==> n == t.messages.len() + 2
                && thought_over(after.messages[n - 2], t.reasoning)
            &&& t.reasoning is None ==> n == t.messages.len() + 1
        }),
{
    lemma_message(chat_role(role), JsonView::Text(content), "reasoning_content"@);
    lemma_message("assistant"@, JsonView::Null, "reasoning_content"@);
    reveal_strlit("role");
    reveal_strlit("content");
    reveal_strlit("reasoning_content");
    assert("role"@.len() == 4);
    assert("content"@.len() == 7);
    assert("reasoning_content"@.len() == 17);
    let message = chat_message(chat_role(role), JsonView::Text(content));
    if let Some(r) = t.reasoning {
        lemma_set_member(message, "reasoning_content"@, JsonView::Text(r), "content"@);
        lemma_set_member(message, "reasoning_content"@, JsonView::Text(r), "role"@);
        lemma_set_member(message, "reasoning_content"@, JsonView::Text(r), "reasoning_content"@);
        let alone = chat_message("assistant"@, JsonView::Null);
        lemma_set_member(alone, "reasoning_content"@, JsonView::Text(r), "reasoning_content"@);
    }
}

/// What a tool returned is the last message then, under the identifier of its call: as it is where it is
/// a text, and as JSON otherwise. Every message before stays, and a thought that belongs to none stands
/// in a message of the assistant before it.
pub proof fn law_outputs_are_told(t: Talk, call_id: Seq<char>, output: JsonView, i: int)
    ensures
        after_item(t, ItemView::FunctionCallOutput { call_id, output }) matches Ok(after) && {
            let n = after.messages.len() as int;
            &&& after.reasoning is None
            &&& t.reasoning is None ==> n == t.messages.len() + 1
            &&& t.reasoning is Some ==> n == t.messages.len() + 2 && thought_over(
                after.messages[n - 2],
                t.reasoning,
            ) && text_field(after.messages[n - 2], "role"@) == Some("assistant"@)
            &&& 0 <= i < t.messages.len() ==> after.messages[i] == t.messages[i]
            &&& text_field(after.messages.last(), "role"@) == Some("tool"@)
            &&& text_field(after.messages.last(), "tool_call_id"@) == Some(call_id)
            &&& text_field(after.messages.last(), "content"@) == Some(
                match output {
                    JsonView::Text(text) => text,
                    other => json_text(other),
                },
            )
        },
{
    reveal_strlit("role");
    reveal_strlit("content");
    reveal_strlit("tool_call_id");
    assert("role"@.len() == 4);
    assert("content"@.len() == 7);
    assert("tool_call_id"@.len() == 12);
    let made = tool_message(call_id, output)->Object_0;
    lemma_lookup_at(made, "content"@, 0);
    lemma_lookup_at(made, "role"@, 1);
    lemma_lookup_at(made, "tool_call_id"@, 2);
    lemma_message("assistant"@, JsonView::Null, "reasoning_content"@);
    reveal_strlit("reasoning_content");
    assert("reasoning_content"@.len() == 17);
    if let Some(r) = t.reasoning {
        let alone = chat_message("assistant"@, JsonView::Null);
        lemma_set_member(alone, "reasoning_content"@, JsonView::Text(r), "role"@);
        lemma_set_member(alone, "reasoning_content"@, JsonView::Text(r), "reasoning_content"@);
    }
}

/// Whether a call of a message is a call of the history. Arguments that are no object are an empty one.
pub open spec fn carries_call(
    call: JsonView,
    call_id: Seq<char>,
    name: Seq<char>,
    arguments: Seq<char>,
) -> bool {
    &&& text_field(call, "id"@) == Some(call_id)
    &&& text_field(call, "type"@) == Some("function"@)
    &&& text_in(field2(call, "function"@, "name"@)) == Some(name)
    &&& json_parsed(arguments) matches Ok(JsonView::Object(_)) ==> text_in(
        field2(call, "function"@, "arguments"@),
    ) == Some(arguments)
    &&& !(json_parsed(arguments) matches Ok(JsonView::Object(_))) ==> text_in(
        field2(call, "function"@, "arguments"@),
    ) == Some("{}"@)
}

proof fn lemma_call_is_carried(call_id: Seq<char>, name: Seq<char>, arguments: Seq<char>)
    ensures
        carries_call(
            chat_call(call_id, name, replayable(arguments, json_parsed(arguments))),
            call_id,
            name,
            arguments,
        ),
{
    reveal_strlit("id");
    reveal_strlit("function");
    reveal_strlit("type");
    reveal_strlit("arguments");
    reveal_strlit("name");
    assert("id"@.len() == 2);
    assert("function"@.len() == 8);
    assert("type"@.len() == 4);
    assert("arguments"@.len() == 9);
    assert("name"@.len() == 4);
    assert("name"@[0] != "type"@[0]);
    let made = chat_call(call_id, name, replayable(arguments, json_parsed(arguments)))->Object_0;
    lemma_lookup_at(made, "function"@, 0);
    lemma_lookup_at(made, "id"@, 1);
    lemma_lookup_at(made, "type"@, 2);
    let inner = made[0].1->Object_0;
    lemma_lookup_at(inner, "arguments"@, 0);
    lemma_lookup_at(inner, "name"@, 1);
}

/// A call joins the last message of the assistant, behind the calls that it holds, or opens one. What
/// the message said and called before stays, and so does every message before it. What was thought goes
/// into the message, unless it holds a thought already.
pub proof fn law_calls_are_told(
    t: Talk,
    call_id: Seq<char>,
    name: Seq<char>,
    arguments: Seq<char>,
    i: int,
)
    requires
        t.messages.len() > 0 ==> t.messages.last() is Object,
    ensures
        after_item(t, ItemView::FunctionCall { call_id, name, arguments }) matches Ok(after) && {
            let joins = t.messages.len() > 0 && text_field(t.messages.last(), "role"@) == Some(
                "assistant"@,
            );
            let last = after.messages.last();
            &&& after.reasoning is None
            &&& after.messages.len() == t.messages.len() + (if joins {
                0int
            } else {
                1
            })
            &&& 0 <= i < after.messages.len() - 1 ==> after.messages[i] == t.messages[i]
            &&& text_field(last, "role"@) == Some("assistant"@)
            &&& items_field(last, "tool_calls"@) matches Some(calls) && calls.len() > 0
                && carries_call(calls.last(), call_id, name, arguments) && calls.drop_last() == (
            if joins {
                message_calls(t.messages.last())
            } else {
                Seq::empty()
            })
            &&& joins ==> field(last, "content"@) == field(t.messages.last(), "content"@)
            &&& !joins ==> field(last, "content"@) == Some(JsonView::Null)
            &&& !joins ==> thought_over(last, t.reasoning)
            &&& joins && field(t.messages.last(), "reasoning_content"@) is None ==> thought_over(
                last,
                t.reasoning,
            )
            &&& joins && field(t.messages.last(), "reasoning_content"@) is Some ==> field(
                last,
                "reasoning_content"@,
            ) == field(t.messages.last(), "reasoning_content"@)
        },
{
    let call = chat_call(call_id, name, replayable(arguments, json_parsed(arguments)));
    lemma_call_is_carried(call_id, name, arguments);
    reveal_strlit("role");
    reveal_strlit("content");
    reveal_strlit("reasoning_content");
    reveal_strlit("tool_calls");
    assert("role"@.len() == 4);
    assert("content"@.len() == 7);
    assert("reasoning_content"@.len() == 17);
    assert("tool_calls"@.len() == 10);
    let message = message_for_call(t);
    let joins = assistant_last(t.messages);
    let base = if joins {
        t.messages.last()
    } else {
        set_member(
            chat_message("assistant"@, JsonView::Null),
            "tool_calls"@,
            JsonView::Array(Seq::empty()),
        )
    };
    if !joins {
        let bare = chat_message("assistant"@, JsonView::Null);
        let none = JsonView::Array(Seq::<JsonView>::empty());
        lemma_message("assistant"@, JsonView::Null, "reasoning_content"@);
        lemma_set_member(bare, "tool_calls"@, none, "tool_calls"@);
        lemma_set_member(bare, "tool_calls"@, none, "content"@);
        lemma_set_member(bare, "tool_calls"@, none, "role"@);
        lemma_set_member(bare, "tool_calls"@, none, "reasoning_content"@);
    }
    if let Some(r) = t.reasoning {
        lemma_set_member(base, "reasoning_content"@, JsonView::Text(r), "content"@);
        lemma_set_member(base, "reasoning_content"@, JsonView::Text(r), "role"@);
        lemma_set_member(base, "reasoning_content"@, JsonView::Text(r), "tool_calls"@);
        lemma_set_member(base, "reasoning_content"@, JsonView::Text(r), "reasoning_content"@);
    }
    let more = JsonView::Array(message_calls(message).push(call));
    lemma_set_member(message, "tool_calls"@, more, "tool_calls"@);
    lemma_set_member(message, "tool_calls"@, more, "content"@);
    lemma_set_member(message, "tool_calls"@, more, "role"@);
    lemma_set_member(message, "tool_calls"@, more, "reasoning_content"@);
    assert(message_calls(message).push(call).drop_last() =~= message_calls(message));
    assert(message_calls(message) =~= (if joins {
        message_calls(t.messages.last())
    } else {
        Seq::empty()
    }));
}

/// An item of an earlier answer is told by what it is: a message that says something as a message of the
/// assistant, a call as a call, and a thought is kept for the message that follows it, behind those that
/// are kept already. Anything else is left out, and only a call that lacks a part is a fault.
pub proof fn law_answers_are_told_again(t: Talk, item: JsonView)
    ensures
        ({
            let after = after_item(t, ItemView::ResponseItem { item });
            let kind = text_field(item, "type"@);
            &&& kind == Some("message"@) && item_text(item).len() > 0 ==> after == after_item(
                t,
                ItemView::Message { role: MessageRole::Assistant, content: item_text(item) },
            )
            &&& kind == Some("function_call"@) ==> match (
                text_field(item, "call_id"@),
                text_field(item, "name"@),
                text_field(item, "arguments"@),
            ) {
                (Some(call_id), Some(name), Some(arguments)) => after == after_item(
                    t,
                    ItemView::FunctionCall { call_id, name, arguments },
                ),
                _ => after is Err,
            }
            &&& kind == Some("reasoning"@) && item_text(item).len() > 0 ==> (after matches Ok(next)
                && next.messages == t.messages && next.reasoning == Some(
                (match t.reasoning {
                    Some(r) => r,
                    None => Seq::empty(),
                }) + item_text(item),
            ))
            &&& kind != Some("function_call"@) && (item_text(item).len() == 0 || (kind != Some(
                "message"@,
            ) && kind != Some("reasoning"@))) ==> after == Ok::<Talk, Seq<char>>(t)
        }),
{
    reveal_strlit("function_call");
    reveal_strlit("message");
    reveal_strlit("reasoning");
    assert("function_call"@.len() == 13);
    assert("message"@.len() == 7);
    assert("reasoning"@.len() == 9);
    assert(Seq::<char>::empty() + item_text(item) =~= item_text(item));
}

/// The text of an item is its content, or the text of its content's parts, one after the other: a part
/// that says nothing adds nothing.
pub proof fn law_text_of_parts(item: JsonView, parts: Seq<JsonView>, part: JsonView)
    ensures
        text_field(item, "content"@) matches Some(t) ==> item_text(item) == t,
        items_field(item, "content"@) == Some(parts) ==> item_text(item) == parts_text(parts),
        parts_text(Seq::empty()) == Seq::<char>::empty(),
        text_field(part, "text"@) matches Some(t) ==> parts_text(parts.push(part)) == parts_text(
            parts,
        ) + t,
        field(part, "text"@) is None && text_field(part, "content"@) is None ==> parts_text(
            parts.push(part),
        ) == parts_text(parts),
        field(part, "text"@) is None ==> (text_field(part, "content"@) matches Some(t) ==> parts_text(
            parts.push(part),
        ) == parts_text(parts) + t),
{
    assert(parts.push(part).drop_last() =~= parts);
    assert(parts_text(parts) + Seq::<char>::empty() =~= parts_text(parts));
}

/// Instructions that say something are the first message, from the system, and others are none.
pub proof fn law_instructions_come_first(instructions: Seq<char>)
    ensures
        crate::text::trimmed(instructions).len() > 0 ==> opening(instructions).messages.len() == 1
            && text_field(opening(instructions).messages[0], "role"@) == Some("system"@)
            && text_field(opening(instructions).messages[0], "content"@) == Some(instructions),
        crate::text::trimmed(instructions).len() == 0 ==> opening(instructions).messages.len() == 0,
        opening(instructions).reasoning is None,
{
    lemma_message("system"@, JsonView::Text(instructions), "role"@);
}

/// The messages of a request are those of its history, item by item, behind its instructions; and what
/// was thought last, and belongs to no message, stands in one of its own.
pub proof fn law_the_history_is_told(request: RequestView)
    ensures
        request.input.len() == 0 ==> talk(request) == Ok::<Seq<JsonView>, Seq<char>>(
            opening(request.instructions).messages,
        ),
        talk(request) is Ok <==> after_items(opening(request.instructions), request.input) is Ok,
        request.input.len() > 0 ==> after_items(opening(request.instructions), request.input) == (
        match after_items(opening(request.instructions), request.input.drop_last()) {
            Ok(t) => after_item(t, request.input.last()),
            Err(e) => Err(e),
        }),
        after_items(opening(request.instructions), request.input) matches Ok(t) ==> (talk(request)
            matches Ok(messages) && messages.len() >= t.messages.len() && messages.take(
            t.messages.len() as int,
        ) == t.messages && (t.reasoning is None ==> messages == t.messages) && (t.reasoning
            is Some ==> messages.len() == t.messages.len() + 1 && thought_over(
            messages.last(),
            t.reasoning,
        ))),
{
    if let Ok(t) = after_items(opening(request.instructions), request.input) {
        lemma_message("assistant"@, JsonView::Null, "reasoning_content"@);
        if let Some(r) = t.reasoning {
            lemma_set_member(
                chat_message("assistant"@, JsonView::Null),
                "reasoning_content"@,
                JsonView::Text(r),
                "reasoning_content"@,
            );
        }
        let messages = flushed(t).messages;
        assert(messages.take(t.messages.len() as int) =~= t.messages);
    }
}

spec fn only(holds: bool, value: Option<JsonView>) -> Option<JsonView> {
    if holds {
        value
    } else {
        None
    }
}

spec fn or(a: Option<JsonView>, b: Option<JsonView>) -> Option<JsonView> {
    if a is Some {
        a
    } else {
        b
    }
}

proof fn lemma_chat_lookup(
    request: RequestView,
    messages: Seq<JsonView>,
    effort: Option<OpenAiReasoningEffort>,
    dialect: OpenAiChatCompatibility,
    key: Seq<char>,
)
    ensures
        lookup(
            chat_head(request, messages, effort, dialect) + chat_tail(request, effort, dialect),
            key,
        ) == or(
            only(key == "messages"@, Some(JsonView::Array(messages))),
            or(
            only(key == "model"@, Some(JsonView::Text(request.model))),
            or(
            only(key == "parallel_tool_calls"@, crate::model::chat::when(
            chat_tools(request).len() > 0 && dialect == OpenAiChatCompatibility::Generic,
            JsonView::Bool(request.parallel_tool_calls),
        )),
            or(
            only(key == "reasoning_effort"@, effort_member(chat_effort(request, effort), dialect)),
            or(
            only(key == "response_format"@, match request.response_format {
            Some(format) => Some(chat_format(format, dialect)),
            None => None,
        }),
            or(
            only(key == "stream"@, Some(JsonView::Bool(true))),
            or(
            only(key == "stream_options"@, crate::model::chat::when(
            dialect != OpenAiChatCompatibility::Glm,
            one("include_usage"@, JsonView::Bool(true)),
        )),
            or(
            only(key == "thinking"@, thinking_member(chat_effort(request, effort), dialect)),
            or(
            only(key == "tool_choice"@, crate::model::chat::when(chat_tools(request).len() > 0, JsonView::Text(request.tool_choice.text()))),
            or(
            only(key == "tool_stream"@, crate::model::chat::when(
            chat_tools(request).len() > 0 && dialect == OpenAiChatCompatibility::Glm,
            JsonView::Bool(true),
        )),
            or(
            only(key == "tools"@, crate::model::chat::when(chat_tools(request).len() > 0, JsonView::Array(chat_tools(request)))),
            None,
        ),
        ),
        ),
        ),
        ),
        ),
        ),
        ),
        ),
        ),
        ),
{
    let a = seq![
        ("messages"@, JsonView::Array(messages)),
        ("model"@, JsonView::Text(request.model)),
    ];
    let o0 = member_if("parallel_tool_calls"@, crate::model::chat::when(
            chat_tools(request).len() > 0 && dialect == OpenAiChatCompatibility::Generic,
            JsonView::Bool(request.parallel_tool_calls),
        ));
    let o1 = member_if("reasoning_effort"@, effort_member(chat_effort(request, effort), dialect));
    let o2 = member_if("response_format"@, match request.response_format {
            Some(format) => Some(chat_format(format, dialect)),
            None => None,
        });
    let o4 = member_if("stream_options"@, crate::model::chat::when(
            dialect != OpenAiChatCompatibility::Glm,
            one("include_usage"@, JsonView::Bool(true)),
        ));
    let o5 = member_if("thinking"@, thinking_member(chat_effort(request, effort), dialect));
    let o6 = member_if("tool_choice"@, crate::model::chat::when(chat_tools(request).len() > 0, JsonView::Text(request.tool_choice.text())));
    let o7 = member_if("tool_stream"@, crate::model::chat::when(
            chat_tools(request).len() > 0 && dialect == OpenAiChatCompatibility::Glm,
            JsonView::Bool(true),
        ));
    let o8 = member_if("tools"@, crate::model::chat::when(chat_tools(request).len() > 0, JsonView::Array(chat_tools(request))));
    let s = seq![("stream"@, JsonView::Bool(true))];
    lemma_lookup_if("parallel_tool_calls"@, crate::model::chat::when(
            chat_tools(request).len() > 0 && dialect == OpenAiChatCompatibility::Generic,
            JsonView::Bool(request.parallel_tool_calls),
        ), key);
    lemma_lookup_if("reasoning_effort"@, effort_member(chat_effort(request, effort), dialect), key);
    lemma_lookup_if("response_format"@, match request.response_format {
            Some(format) => Some(chat_format(format, dialect)),
            None => None,
        }, key);
    lemma_lookup_if("stream_options"@, crate::model::chat::when(
            dialect != OpenAiChatCompatibility::Glm,
            one("include_usage"@, JsonView::Bool(true)),
        ), key);
    lemma_lookup_if("thinking"@, thinking_member(chat_effort(request, effort), dialect), key);
    lemma_lookup_if("tool_choice"@, crate::model::chat::when(chat_tools(request).len() > 0, JsonView::Text(request.tool_choice.text())), key);
    lemma_lookup_if("tool_stream"@, crate::model::chat::when(
            chat_tools(request).len() > 0 && dialect == OpenAiChatCompatibility::Glm,
            JsonView::Bool(true),
        ), key);
    lemma_lookup_if("tools"@, crate::model::chat::when(chat_tools(request).len() > 0, JsonView::Array(chat_tools(request))), key);
    reveal_strlit("model");
    reveal_strlit("messages");
    assert("model"@.len() == 5);
    assert("messages"@.len() == 8);
    if key == "messages"@ {
        lemma_lookup_at(a, key, 0);
    } else if key == "model"@ {
        lemma_lookup_at(a, key, 1);
    } else {
        lemma_lookup_at(a, key, 2);
    }
    if key == "stream"@ {
        lemma_lookup_at(s, key, 0);
    } else {
        lemma_lookup_at(s, key, 1);
    }
    lemma_lookup_in_both(a, o0, key);
    lemma_lookup_in_both(a + o0, o1, key);
    lemma_lookup_in_both(a + o0 + o1, o2, key);
    lemma_lookup_in_both(s, o4, key);
    lemma_lookup_in_both(s + o4, o5, key);
    lemma_lookup_in_both(s + o4 + o5, o6, key);
    lemma_lookup_in_both(s + o4 + o5 + o6, o7, key);
    lemma_lookup_in_both(s + o4 + o5 + o6 + o7, o8, key);
    let head = chat_head(request, messages, effort, dialect);
    let tail = chat_tail(request, effort, dialect);
    assert(head == a + o0 + o1 + o2);
    assert(tail == s + o4 + o5 + o6 + o7 + o8);
    lemma_lookup_in_both(head, tail, key);
}

/// Whether a tool of a body is a tool of the request.
pub open spec fn carries_chat_tool(j: JsonView, tool: ToolView) -> bool {
    &&& text_field(j, "type"@) == Some("function"@)
    &&& text_in(field2(j, "function"@, "name"@)) == Some(tool.name)
    &&& text_in(field2(j, "function"@, "description"@)) == Some(tool.description)
    &&& field2(j, "function"@, "parameters"@) == Some(tool.input_schema)
}

proof fn lemma_chat_tool(tool: ToolView)
    ensures
        carries_chat_tool(chat_tool(tool), tool),
{
    reveal_strlit("name");
    reveal_strlit("description");
    reveal_strlit("parameters");
    reveal_strlit("function");
    reveal_strlit("type");
    assert("name"@.len() == 4);
    assert("description"@.len() == 11);
    assert("parameters"@.len() == 10);
    assert("function"@.len() == 8);
    assert("type"@.len() == 4);
    assert("type"@[0] != "name"@[0]);
    let made = chat_tool(tool)->Object_0;
    lemma_lookup_at(made, "function"@, 0);
    lemma_lookup_at(made, "type"@, 1);
    let inner = made[0].1->Object_0;
    lemma_lookup_at(inner, "description"@, 0);
    lemma_lookup_at(inner, "name"@, 1);
    lemma_lookup_at(inner, "parameters"@, 2);
}

/// The body of a request carries the request: the model and the messages; the tools, all of them where
/// they may be called and none otherwise; whether several may be called at once, where the dialect knows
/// of that; the effort, the request's own before the configured one; and the form of the answer.
pub proof fn law_chat_bodies_carry_the_request(
    request: RequestView,
    provider: Seq<char>,
    effort: Option<OpenAiReasoningEffort>,
    dialect: OpenAiChatCompatibility,
    i: int,
)
    ensures
        chat_body(request, provider, effort, dialect) is Ok <==> request.hosted_tools.len() == 0
            && talk(request) is Ok,
        chat_body(request, provider, effort, dialect) matches Ok(body) ==> {
            let offers = request.tool_choice == ModelToolChoice::Auto && request.tools.len() > 0;
            let generic = dialect == OpenAiChatCompatibility::Generic;
            let wanted = match request.reasoning_effort {
                Some(e) => Some(e),
                None => match effort {
                    Some(e) => Some(protocol_effort(e)),
                    None => None,
                },
            };
            &&& text_field(body, "model"@) == Some(request.model)
            &&& talk(request) matches Ok(messages) && items_field(body, "messages"@) == Some(
                messages,
            )
            &&& field(body, "stream"@) == Some(JsonView::Bool(true))
            &&& field2(body, "stream_options"@, "include_usage"@) == (if dialect
                == OpenAiChatCompatibility::Glm {
                None
            } else {
                Some(JsonView::Bool(true))
            })
            &&& offers ==> (items_field(body, "tools"@) matches Some(tools) && tools.len()
                == request.tools.len() && (0 <= i < tools.len() ==> carries_chat_tool(
                tools[i],
                request.tools[i],
            )))
            &&& !offers ==> field(body, "tools"@) is None
            &&& text_field(body, "tool_choice"@) == (if offers {
                Some("auto"@)
            } else {
                None
            })
            &&& field(body, "parallel_tool_calls"@) == (if offers && generic {
                Some(JsonView::Bool(request.parallel_tool_calls))
            } else {
                None
            })
            &&& field(body, "tool_stream"@) == (if offers && dialect
                == OpenAiChatCompatibility::Glm {
                Some(JsonView::Bool(true))
            } else {
                None
            })
            &&& text_field(body, "reasoning_effort"@) == (match wanted {
                Some(e) => if generic || e != ReasoningEffort::Off {
                    Some(e.text())
                } else {
                    None
                },
                None => None,
            })
            &&& text_in(field2(body, "thinking"@, "type"@)) == (match wanted {
                Some(e) => if generic {
                    None
                } else if e == ReasoningEffort::Off {
                    Some("disabled"@)
                } else {
                    Some("enabled"@)
                },
                None => None,
            })
            &&& request.response_format is None ==> field(body, "response_format"@) is None
            &&& request.response_format matches Some(format) ==> if generic {
                &&& text_in(field2(body, "response_format"@, "type"@)) == Some("json_schema"@)
                &&& field2(body, "response_format"@, "json_schema"@) == Some(
                    JsonView::Object(
                        seq![
                            ("name"@, JsonView::Text(format.name)),
                            ("schema"@, format.schema),
                            ("strict"@, JsonView::Bool(format.strict)),
                        ],
                    ),
                )
            } else {
                text_in(field2(body, "response_format"@, "type"@)) == Some("json_object"@)
            }
        },
{
    reveal_strlit("model");
    reveal_strlit("messages");
    reveal_strlit("parallel_tool_calls");
    reveal_strlit("reasoning_effort");
    reveal_strlit("response_format");
    reveal_strlit("stream");
    reveal_strlit("stream_options");
    reveal_strlit("thinking");
    reveal_strlit("tool_choice");
    reveal_strlit("tool_stream");
    reveal_strlit("tools");
    reveal_strlit("json_schema");
    reveal_strlit("type");
    reveal_strlit("include_usage");
    assert("model"@.len() == 5);
    assert("messages"@.len() == 8);
    assert("parallel_tool_calls"@.len() == 19);
    assert("reasoning_effort"@.len() == 16);
    assert("response_format"@.len() == 15);
    assert("stream"@.len() == 6);
    assert("stream_options"@.len() == 14);
    assert("thinking"@.len() == 8);
    assert("tool_choice"@.len() == 11);
    assert("tool_stream"@.len() == 11);
    assert("tools"@.len() == 5);
    assert("json_schema"@.len() == 11);
    assert("type"@.len() == 4);
    assert("include_usage"@.len() == 13);
    assert("thinking"@[0] != "messages"@[0]);
    assert("tool_stream"@[5] != "tool_choice"@[5]);
    assert("tools"@[0] != "model"@[0]);
    assert("json_schema"@[0] != "tool_choice"@[0]);
    assert("json_schema"@[0] != "tool_stream"@[0]);
    if let Ok(messages) = talk(request) {
        lemma_chat_lookup(request, messages, effort, dialect, "messages"@);
        lemma_chat_lookup(request, messages, effort, dialect, "model"@);
        lemma_chat_lookup(request, messages, effort, dialect, "parallel_tool_calls"@);
        lemma_chat_lookup(request, messages, effort, dialect, "reasoning_effort"@);
        lemma_chat_lookup(request, messages, effort, dialect, "response_format"@);
        lemma_chat_lookup(request, messages, effort, dialect, "stream"@);
        lemma_chat_lookup(request, messages, effort, dialect, "stream_options"@);
        lemma_chat_lookup(request, messages, effort, dialect, "thinking"@);
        lemma_chat_lookup(request, messages, effort, dialect, "tool_choice"@);
        lemma_chat_lookup(request, messages, effort, dialect, "tool_stream"@);
        lemma_chat_lookup(request, messages, effort, dialect, "tools"@);
        lemma_lookup_at(
            one("include_usage"@, JsonView::Bool(true))->Object_0,
            "include_usage"@,
            0,
        );
        lemma_lookup_at(one("type"@, JsonView::Text("disabled"@))->Object_0, "type"@, 0);
        lemma_lookup_at(one("type"@, JsonView::Text("enabled"@))->Object_0, "type"@, 0);
        lemma_lookup_at(one("type"@, JsonView::Text("json_object"@))->Object_0, "type"@, 0);
        if let Some(format) = request.response_format {
            if dialect == OpenAiChatCompatibility::Generic {
                let made = chat_format(format, dialect)->Object_0;
                lemma_lookup_at(made, "json_schema"@, 0);
                lemma_lookup_at(made, "type"@, 1);
            }
        }
    }
    if 0 <= i < request.tools.len() {
        lemma_chat_tool(request.tools[i]);
    }
}

} // verus!
