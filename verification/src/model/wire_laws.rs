//! What goes to a provider and comes back: over HTTP and over a connection.

use crate::agent::history::item_call;
use crate::json::{
    alike, field, field2, field3, json_parsed, lookup, number_in, text_field, text_in, with,
    without, JsonView,
};
use crate::model::chat_laws::lemma_lookup_with;
use crate::model::error::ModelErrorView;
use crate::model::http::{
    account_headers, after_attempt, after_error, asked_mode, chosen_transport, client_fault,
    header_char, header_if, header_text, retry_delay, socket_header_list, sse_message,
    AttemptOutcome, AttemptView, ChoiceView, ErrorBody, SseMessage, SseView,
};
use crate::model::responses::{event_in, event_of, output_item, sanitized, OpenAiPromptCacheMode};
use crate::model::sessions::{found, fresh, is_fresh, place, TimedEntry, SOCKET_FALLBACK_TTL};
use crate::model::websocket::{
    continuation, lasting_properties, message_step, reply_with, sent_body, socket_members,
    starts_alike, whole_input, Continuation, MemoryView, ReplyView, SocketMessage, StepView,
};
use crate::protocol::model::{ModelEventView, PromptCacheStrategy, TokenUsage};
use vstd::prelude::*;

verus! {

/// Leaving out a member leaves all others.
pub proof fn lemma_lookup_without(
    members: Seq<(Seq<char>, JsonView)>,
    key: Seq<char>,
    other: Seq<char>,
)
    ensures
        lookup(without(members, key), other) == (if other == key {
            None
        } else {
            lookup(members, other)
        }),
    decreases members.len(),
{
    if members.len() > 0 {
        let rest = members.drop_last();
        let last = members.last();
        lemma_lookup_without(rest, key, other);
        crate::model::laws::lemma_lookup_in_both(rest, seq![last], other);
        assert(rest + seq![last] =~= members);
        if last.0 == other {
            crate::model::laws::lemma_lookup_at(seq![last], other, 0);
        } else {
            crate::model::laws::lemma_lookup_at(seq![last], other, 1);
        }
        if last.0 != key {
            let kept = without(rest, key);
            crate::model::laws::lemma_lookup_in_both(kept, seq![last], other);
            assert(kept + seq![last] =~= kept.push(last));
        }
    }
}

/// An item of an answer is kept whole, but for what names it at the provider.
pub proof fn law_items_keep_what_they_say(item: JsonView, key: Seq<char>)
    ensures
        field(sanitized(item), "id"@) is None,
        field(sanitized(item), "status"@) is None,
        key != "id"@ && key != "status"@ ==> field(sanitized(item), key) == field(item, key),
        item_call(sanitized(item)) == item_call(item),
{
    reveal_strlit("status");
    reveal_strlit("id");
    reveal_strlit("type");
    reveal_strlit("call_id");
    reveal_strlit("name");
    reveal_strlit("arguments");
    assert("status"@.len() == 6);
    assert("id"@.len() == 2);
    assert("type"@.len() == 4);
    assert("call_id"@.len() == 7);
    assert("name"@.len() == 4);
    assert("arguments"@.len() == 9);
    assert("name"@[0] != "type"@[0]);
    if let JsonView::Object(members) = item {
        let once = without(members, "id"@);
        lemma_lookup_without(members, "id"@, "id"@);
        lemma_lookup_without(once, "status"@, "id"@);
        lemma_lookup_without(members, "id"@, "status"@);
        lemma_lookup_without(once, "status"@, "status"@);
        lemma_lookup_without(members, "id"@, "type"@);
        lemma_lookup_without(once, "status"@, "type"@);
        lemma_lookup_without(members, "id"@, "call_id"@);
        lemma_lookup_without(once, "status"@, "call_id"@);
        lemma_lookup_without(members, "id"@, "name"@);
        lemma_lookup_without(once, "status"@, "name"@);
        lemma_lookup_without(members, "id"@, "arguments"@);
        lemma_lookup_without(once, "status"@, "arguments"@);
        lemma_lookup_without(members, "id"@, key);
        lemma_lookup_without(once, "status"@, key);
    }
}

/// A part of the text is told as it came.
pub proof fn law_text_is_told(value: JsonView, delta: Seq<char>)
    requires
        text_field(value, "type"@) == Some("response.output_text.delta"@),
        text_field(value, "delta"@) == Some(delta),
    ensures
        event_in(value) == Ok::<Option<ModelEventView>, ModelErrorView>(
            Some(ModelEventView::OutputTextDelta(delta)),
        ),
{
}

/// A completed item is told: from what is told the same call is read as from the item itself, and a call
/// that lacks a part is an error.
pub proof fn law_items_are_told(value: JsonView, item: JsonView, key: Seq<char>)
    requires
        text_field(value, "type"@) == Some("response.output_item.done"@),
        field(value, "item"@) == Some(item),
    ensures
        event_in(value) is Ok <==> item_call(item) is Ok,
        event_in(value) is Ok ==> (event_in(value) matches Ok(
            Some(ModelEventView::ResponseItemCompleted(told)),
        ) && item_call(told) == item_call(item) && (key != "id"@ && key != "status"@ ==> field(
            told,
            key,
        ) == field(item, key))),
{
    reveal_strlit("response.output_item.done");
    reveal_strlit("response.output_text.delta");
    reveal_strlit("response.completed");
    reveal_strlit("response.failed");
    reveal_strlit("response.incomplete");
    reveal_strlit("error");
    assert("response.output_item.done"@.len() == 25);
    assert("response.output_text.delta"@.len() == 26);
    assert("response.completed"@.len() == 18);
    assert("response.failed"@.len() == 15);
    assert("response.incomplete"@.len() == 19);
    assert("error"@.len() == 5);
    law_items_keep_what_they_say(item, key);
}

/// The end of an answer is told with its usage, and an answer that fails or stays incomplete is an error
/// with its usage and its reason: what the provider says of the error, or else why it stopped.
pub proof fn law_ends_are_told(value: JsonView)
    ensures
        text_field(value, "type"@) == Some("response.completed"@) ==> (event_in(value) matches Ok(
            Some(ModelEventView::Completed(usage)),
        ) && usage_is(usage, field2(value, "response"@, "usage"@))),
        text_field(value, "type"@) == Some("response.failed"@) || text_field(value, "type"@) == Some(
            "response.incomplete"@,
        ) ==> (event_in(value) matches Err(ModelErrorView::IncompleteResponse { reason, usage })
            && usage_is(usage, field2(value, "response"@, "usage"@)) && (text_in(
            field3(value, "response"@, "error"@, "message"@),
        ) matches Some(m) ==> reason == m) && (field3(
            value,
            "response"@,
            "error"@,
            "message"@,
        ) is None ==> (text_in(field3(value, "response"@, "incomplete_details"@, "reason"@))
            matches Some(m) ==> reason == m))),
        text_field(value, "type"@) == Some("error"@) ==> (event_in(value) matches Err(
            ModelErrorView::Provider(m),
        ) && (text_in(field2(value, "error"@, "message"@)) matches Some(said) ==> m == said)),
{
    reveal_strlit("response.output_item.done");
    reveal_strlit("response.output_text.delta");
    reveal_strlit("response.completed");
    reveal_strlit("response.failed");
    reveal_strlit("response.incomplete");
    reveal_strlit("error");
    assert("response.output_item.done"@.len() == 25);
    assert("response.output_text.delta"@.len() == 26);
    assert("response.completed"@.len() == 18);
    assert("response.failed"@.len() == 15);
    assert("response.incomplete"@.len() == 19);
    assert("error"@.len() == 5);
}

/// Whether a usage is the one that a provider tells, number for number.
pub open spec fn usage_is(usage: TokenUsage, told: Option<JsonView>) -> bool {
    match told {
        Some(u) => {
            &&& usage.input_tokens == number_in(field(u, "input_tokens"@))
            &&& usage.output_tokens == number_in(field(u, "output_tokens"@))
            &&& usage.cached_input_tokens == number_in(
                field2(u, "input_tokens_details"@, "cached_tokens"@),
            )
            &&& usage.cache_write_input_tokens == number_in(
                field2(u, "input_tokens_details"@, "cache_write_tokens"@),
            )
        },
        None => usage.input_tokens == 0 && usage.output_tokens == 0 && usage.cached_input_tokens == 0
            && usage.cache_write_input_tokens == 0,
    }
}

/// Data that are blank, or that mark the end, say nothing. All others are the event that they are read
/// as, and data that are no JSON are an error.
pub proof fn law_data_are_read_as_events(data: Seq<char>)
    ensures
        crate::text::trimmed(data).len() == 0 || crate::text::trimmed(data) == "[DONE]"@ ==> event_of(
            data,
        ) == Ok::<Option<ModelEventView>, ModelErrorView>(None),
        crate::text::trimmed(data).len() > 0 && crate::text::trimmed(data) != "[DONE]"@ ==> match json_parsed(
            data,
        ) {
            Ok(value) => event_of(data) == event_in(value),
            Err(_) => event_of(data) is Err,
        },
{
}

/// A stream tells the events of its data, waits where they say nothing, and ends at its end. Bad data are
/// an error that does not end it; a break or a silence is one that does.
pub proof fn law_streams_tell_their_events(message: SseMessage, idle_seconds: u64)
    ensures
        match message {
            SseMessage::Data(data) => match event_of(data@) {
                Ok(Some(event)) => sse_message(message, idle_seconds) == SseView::Tell(event),
                Ok(None) => sse_message(message, idle_seconds) is Wait,
                Err(e) => sse_message(message, idle_seconds) == (SseView::Fail {
                    error: e,
                    last: false,
                }),
            },
            SseMessage::Ended => sse_message(message, idle_seconds) is End,
            _ => sse_message(message, idle_seconds) matches SseView::Fail { last, .. } && last,
        },
{
}

/// The wait before the first attempts is a second. It doubles with every attempt up to the fifth, and
/// stays from there on. The clock adds its own milliseconds, counted from nothing again after half a
/// second.
pub proof fn law_waits_double(attempt: u32, millis: u32)
    ensures
        retry_delay(0, None) == 1000,
        retry_delay(1, None) == 1000,
        1 <= attempt < 5 ==> retry_delay((attempt + 1) as u32, None) == 2 * retry_delay(attempt, None),
        attempt >= 5 ==> retry_delay(attempt, None) == 16000,
        retry_delay(attempt, Some(millis)) == retry_delay(attempt, None) + millis % 501,
{
    vstd::arithmetic::power2::lemma2_to64();
}

/// An answer is good exactly if its status says so. A request that got no answer is sent again as long as
/// there may be another attempt, and so is one that was refused for now, by too many requests or a fault
/// of the provider; one that was refused for good is not.
pub proof fn law_which_attempts_are_repeated(
    outcome: AttemptOutcome,
    status: u16,
    body: ErrorBody,
    attempt: u32,
    max: u32,
    timeout_seconds: u64,
)
    ensures
        match outcome {
            AttemptOutcome::Answered(s) => after_attempt(outcome, attempt, max, timeout_seconds) == (
            if 200 <= s <= 299 {
                AttemptView::Accept
            } else {
                AttemptView::ReadError(s)
            }),
            _ => if attempt < max {
                after_attempt(outcome, attempt, max, timeout_seconds) == AttemptView::Retry(
                    (attempt + 1) as u32,
                )
            } else {
                after_attempt(outcome, attempt, max, timeout_seconds) matches AttemptView::Fail(
                    ModelErrorView::Transport(_),
                )
            },
        },
        attempt < max && (status == 429 || 500 <= status <= 599) ==> after_error(
            status,
            body,
            attempt,
            max,
        ) == AttemptView::Retry((attempt + 1) as u32),
        !(attempt < max && (status == 429 || 500 <= status <= 599)) ==> (after_error(
            status,
            body,
            attempt,
            max,
        ) matches AttemptView::Fail(ModelErrorView::Http { status: s, message }) && s == status && (
        body matches ErrorBody::Read(text) ==> message == text@)),
{
}

proof fn lemma_which_are_fresh<S>(entries: Seq<TimedEntry<S>>, now: u64, ttl: u64, i: int)
    ensures
        0 <= i < entries.len() && now - entries[i].used < ttl ==> fresh(entries, now, ttl).contains(
            entries[i],
        ),
        forall|j: int|
            0 <= j < fresh(entries, now, ttl).len() ==> now - (#[trigger] fresh(
                entries,
                now,
                ttl,
            )[j]).used < ttl && entries.contains(fresh(entries, now, ttl)[j]),
    decreases entries.len(),
{
    if entries.len() > 0 {
        let rest = entries.drop_first();
        let kept = fresh(rest, now, ttl);
        let all = fresh(entries, now, ttl);
        lemma_which_are_fresh(rest, now, ttl, i - 1);
        if is_fresh(entries[0], now, ttl) {
            assert(all == seq![entries[0]] + kept);
            assert(all[0] == entries[0]);
            if 0 < i < entries.len() && now - entries[i].used < ttl {
                assert(rest[i - 1] == entries[i]);
                let j = choose|j: int| 0 <= j < kept.len() && kept[j] == entries[i];
                assert(all[j + 1] == entries[i]);
            }
        } else if 0 < i < entries.len() {
            assert(rest[i - 1] == entries[i]);
        }
        assert forall|j: int| 0 <= j < all.len() implies now - (#[trigger] all[j]).used < ttl
            && entries.contains(all[j]) by {
            if is_fresh(entries[0], now, ttl) {
                if j > 0 {
                    assert(all[j] == kept[j - 1]);
                    assert(rest.contains(kept[j - 1]));
                    let k = choose|k: int| 0 <= k < rest.len() && rest[k] == kept[j - 1];
                    assert(entries[k + 1] == all[j]);
                } else {
                    assert(entries[0] == all[0]);
                }
            } else {
                assert(all[j] == kept[j]);
                assert(rest.contains(kept[j]));
                let k = choose|k: int| 0 <= k < rest.len() && rest[k] == kept[j];
                assert(entries[k + 1] == all[j]);
            }
        }
    }
}

/// What was used less than a time ago is kept, and nothing else.
pub proof fn law_what_is_used_is_kept<S>(
    entries: Seq<TimedEntry<S>>,
    now: u64,
    ttl: u64,
    entry: TimedEntry<S>,
)
    ensures
        fresh(entries, now, ttl).contains(entry) <==> entries.contains(entry) && now - entry.used
            < ttl,
{
    lemma_which_are_fresh(entries, now, ttl, 0);
    if entries.contains(entry) && now - entry.used < ttl {
        let i = choose|i: int| 0 <= i < entries.len() && entries[i] == entry;
        lemma_which_are_fresh(entries, now, ttl, i);
    }
    if fresh(entries, now, ttl).contains(entry) {
        let j = choose|j: int|
            0 <= j < fresh(entries, now, ttl).len() && fresh(entries, now, ttl)[j] == entry;
        assert(entries.contains(fresh(entries, now, ttl)[j]));
    }
}

/// Whether a session's connection failed less than five minutes ago.
pub open spec fn failed_lately(failed: Seq<TimedEntry<()>>, key: Seq<char>, now: u64) -> bool {
    exists|i: int|
        0 <= i < failed.len() && (#[trigger] failed[i]).key@ == key && now - failed[i].used
            < 300_000_000_000
}

/// A request goes over a connection exactly if it belongs to a session, the provider takes connections,
/// and that of the session did not fail a short while ago.
pub proof fn law_when_a_connection_is_used(
    websockets: bool,
    key: Option<Seq<char>>,
    failed: Seq<TimedEntry<()>>,
    now: u64,
)
    ensures
        chosen_transport(websockets, key, failed, now) is Socket <==> websockets && (key matches Some(
            k,
        ) && !failed_lately(failed, k, now)),
        chosen_transport(websockets, key, failed, now) matches ChoiceView::Socket(k) ==> key == Some(
            k,
        ),
        chosen_transport(websockets, key, failed, now) matches ChoiceView::Http(reason) ==> (reason
            is Some <==> (key matches Some(k) && failed_lately(failed, k, now))),
{
    if let Some(k) = key {
        let kept = fresh(failed, now, SOCKET_FALLBACK_TTL);
        crate::model::sessions::lemma_place(kept, k);
        lemma_which_are_fresh(failed, now, SOCKET_FALLBACK_TTL, 0);
        if failed_lately(failed, k, now) {
            let i = choose|i: int|
                0 <= i < failed.len() && (#[trigger] failed[i]).key@ == k && now - failed[i].used
                    < 300_000_000_000;
            lemma_which_are_fresh(failed, now, SOCKET_FALLBACK_TTL, i);
            let j = choose|j: int| 0 <= j < kept.len() && kept[j] == failed[i];
            assert(kept[j].key@ == k);
        }
        if found(kept, k).is_some() {
            let j = place(kept, k);
            assert(failed.contains(kept[j]));
            let i = choose|i: int| 0 <= i < failed.len() && failed[i] == kept[j];
            assert(failed[i].key@ == k);
        }
    }
}

/// Whether a list of headers has one.
pub open spec fn sends(
    headers: Seq<(Seq<char>, Seq<char>)>,
    name: Seq<char>,
    value: Seq<char>,
) -> bool {
    headers.contains((name, value))
}

/// Every request names the program that makes it, and the organization and the project where they are
/// set. A new connection shows the key as well, and the session where its key can be sent.
pub proof fn law_headers_name_the_account(
    api_key: Seq<char>,
    session_key: Seq<char>,
    organization: Option<Seq<char>>,
    project: Option<Seq<char>>,
)
    ensures
        ({
            let plain = account_headers(organization, project);
            let socket = socket_header_list(api_key, session_key, organization, project);
            &&& sends(plain, "user-agent"@, "papermachine/0.1"@)
            &&& sends(socket, "user-agent"@, "papermachine/0.1"@)
            &&& organization matches Some(o) ==> sends(plain, "OpenAI-Organization"@, o) && sends(
                socket,
                "OpenAI-Organization"@,
                o,
            )
            &&& project matches Some(p) ==> sends(plain, "OpenAI-Project"@, p) && sends(
                socket,
                "OpenAI-Project"@,
                p,
            )
            &&& sends(socket, "authorization"@, "Bearer "@ + api_key)
            &&& header_text(session_key) ==> sends(socket, "x-client-request-id"@, session_key)
            &&& plain.len() == 1 + (if organization is Some {
                1int
            } else {
                0
            }) + (if project is Some {
                1int
            } else {
                0
            })
        }),
{
    let start = seq![("user-agent"@, "papermachine/0.1"@)];
    let org = header_if("OpenAI-Organization"@, organization);
    let pro = header_if("OpenAI-Project"@, project);
    let plain = account_headers(organization, project);
    assert(plain[0] == ("user-agent"@, "papermachine/0.1"@));
    if let Some(o) = organization {
        assert(plain[1] == ("OpenAI-Organization"@, o));
    }
    if let Some(p) = project {
        assert(plain[plain.len() - 1] == ("OpenAI-Project"@, p));
    }
    let socket = socket_header_list(api_key, session_key, organization, project);
    assert(socket[0] == ("authorization"@, "Bearer "@ + api_key));
    assert(socket[1] == ("user-agent"@, "papermachine/0.1"@));
    let more: int = if header_text(session_key) {
        assert(socket[3] == ("x-client-request-id"@, session_key));
        4
    } else {
        3
    };
    if let Some(o) = organization {
        assert(socket[more] == ("OpenAI-Organization"@, o));
    }
    if let Some(p) = project {
        assert(socket[socket.len() - 1] == ("OpenAI-Project"@, p));
    }
}

/// A client can be made exactly of a key that says something and of settings that hold no character that
/// a header refuses: a control character other than a tab.
pub proof fn law_which_settings_make_a_client(
    blank_key: Seq<char>,
    api_key: Seq<char>,
    organization: Option<Seq<char>>,
    project: Option<Seq<char>>,
)
    ensures
        client_fault(blank_key, api_key, organization, project) is None <==> {
            &&& crate::text::trimmed(api_key).len() > 0
            &&& organization matches Some(o) ==> (forall|i: int|
                0 <= i < o.len() ==> (#[trigger] o[i] as u32 >= 32 && o[i] as u32 != 127) || o[i]
                    == '\t')
            &&& project matches Some(p) ==> (forall|i: int|
                0 <= i < p.len() ==> (#[trigger] p[i] as u32 >= 32 && p[i] as u32 != 127) || p[i]
                    == '\t')
        },
        crate::text::trimmed(api_key).len() == 0 ==> client_fault(
            blank_key,
            api_key,
            organization,
            project,
        ) == Some(blank_key),
{
    assert(forall|c: char| header_char(c) <==> (c as u32 >= 32 && c as u32 != 127) || c == '\t');
    if let Some(o) = organization {
        if header_text(o) {
            assert forall|i: int| 0 <= i < o.len() implies (#[trigger] o[i] as u32 >= 32 && o[i] as u32
                != 127) || o[i] == '\t' by {
                assert(header_char(o[i]));
            }
        }
    }
    if let Some(p) = project {
        if header_text(p) {
            assert forall|i: int| 0 <= i < p.len() implies (#[trigger] p[i] as u32 >= 32 && p[i] as u32
                != 127) || p[i] == '\t' by {
                assert(header_char(p[i]));
            }
        }
    }
}

/// A request over a connection says what it says over HTTP, but for how it streams, which a connection
/// knows, and that it asks for a response.
pub proof fn law_connections_are_told_the_same(
    members: Seq<(Seq<char>, JsonView)>,
    key: Seq<char>,
)
    ensures
        lookup(socket_members(members), key) == (if key == "type"@ {
            Some(JsonView::Text("response.create"@))
        } else if key == "stream"@ || key == "background"@ {
            None
        } else {
            lookup(members, key)
        }),
{
    reveal_strlit("stream");
    reveal_strlit("type");
    reveal_strlit("background");
    assert("stream"@.len() == 6);
    assert("type"@.len() == 4);
    assert("background"@.len() == 10);
    let once = without(members, "stream"@);
    let twice = without(once, "background"@);
    lemma_lookup_without(members, "stream"@, key);
    lemma_lookup_without(once, "background"@, key);
    lemma_lookup_with(twice, "type"@, JsonView::Text("response.create"@), key);
}

/// What a continued request has to agree on is all of it but its input, what only frames it, and what
/// only controls the next response.
pub proof fn law_requests_agree_on_the_rest(members: Seq<(Seq<char>, JsonView)>, key: Seq<char>)
    ensures
        field(lasting_properties(JsonView::Object(members)), key) == (if key == "input"@ || key
            == "type"@ || key == "previous_response_id"@ || key == "tool_choice"@ || key
            == "parallel_tool_calls"@ {
            None
        } else {
            lookup(members, key)
        }),
{
    let a = without(members, "input"@);
    let b = without(a, "type"@);
    let c = without(b, "previous_response_id"@);
    let d = without(c, "tool_choice"@);
    lemma_lookup_without(members, "input"@, key);
    lemma_lookup_without(a, "type"@, key);
    lemma_lookup_without(b, "previous_response_id"@, key);
    lemma_lookup_without(c, "tool_choice"@, key);
    lemma_lookup_without(d, "parallel_tool_calls"@, key);
}

/// A request continues the one before exactly if there is one, they agree, and its input begins with the
/// last input and the last answer and goes on behind them.
pub proof fn law_which_requests_continue(
    memory: MemoryView,
    properties: JsonView,
    full: Seq<JsonView>,
)
    requires
        memory.input.len() + memory.items.len() <= usize::MAX,
    ensures
        continuation(memory, properties, full) is Extends <==> {
            &&& memory.response_id.len() > 0
            &&& alike(memory.properties, properties)
            &&& full.len() > memory.input.len() + memory.items.len()
            &&& forall|i: int|
                0 <= i < memory.input.len() ==> alike(#[trigger] memory.input[i], full[i])
            &&& forall|i: int|
                0 <= i < memory.items.len() ==> alike(
                    #[trigger] memory.items[i],
                    full[memory.input.len() + i],
                )
        },
{
    let start = memory.input + memory.items;
    if full.len() > start.len() {
        if starts_alike(full, start) {
            assert forall|i: int| 0 <= i < memory.input.len() implies alike(
                #[trigger] memory.input[i],
                full[i],
            ) by {
                assert(start[i] == memory.input[i]);
            }
            assert forall|i: int| 0 <= i < memory.items.len() implies alike(
                #[trigger] memory.items[i],
                full[memory.input.len() + i],
            ) by {
                assert(start[memory.input.len() + i] == memory.items[i]);
            }
        }
        if (forall|i: int|
            0 <= i < memory.input.len() ==> alike(#[trigger] memory.input[i], full[i])) && (forall|
            i: int,
        |
            0 <= i < memory.items.len() ==> alike(
                #[trigger] memory.items[i],
                full[memory.input.len() + i],
            )) {
            assert forall|i: int| 0 <= i < start.len() implies alike(#[trigger] start[i], full[i]) by {
                if i < memory.input.len() {
                    assert(start[i] == memory.input[i]);
                } else {
                    assert(start[i] == memory.items[i - memory.input.len()]);
                }
            }
        }
    }
}

/// A request that continues names the response that it continues and sends only what is new, and a
/// request that does not is sent whole. All else is said either way.
pub proof fn law_continued_requests_say_the_rest(
    memory: MemoryView,
    body: Seq<(Seq<char>, JsonView)>,
    key: Seq<char>,
)
    ensures
        ({
            let whole = JsonView::Object(body);
            let sent = sent_body(memory, body);
            match continuation(memory, lasting_properties(whole), whole_input(whole)) {
                Continuation::Miss(_) => sent == body,
                Continuation::Extends(rest) => lookup(sent, key) == (if key == "input"@ {
                    Some(JsonView::Array(rest))
                } else if key == "previous_response_id"@ {
                    Some(JsonView::Text(memory.response_id))
                } else {
                    lookup(body, key)
                }),
            }
        }),
{
    reveal_strlit("previous_response_id");
    reveal_strlit("input");
    assert("previous_response_id"@.len() == 20);
    assert("input"@.len() == 5);
    let whole = JsonView::Object(body);
    let id = JsonView::Text(memory.response_id);
    lemma_lookup_with(body, "previous_response_id"@, id, key);
    if let Continuation::Extends(rest) = continuation(
        memory,
        lasting_properties(whole),
        whole_input(whole),
    ) {
        lemma_lookup_with(
            with(body, "previous_response_id"@, id),
            "input"@,
            JsonView::Array(rest),
            key,
        );
    }
}

/// An answer over a connection grows by each completed item, in order, each without what names it at the
/// provider, and has the last identifier that was told. Nothing else changes it.
pub proof fn law_answers_grow(reply: ReplyView, value: JsonView)
    ensures
        ({
            let after = reply_with(reply, value);
            &&& after.input == reply.input && after.properties == reply.properties
                && after.idle_seconds == reply.idle_seconds
            &&& text_in(field2(value, "response"@, "id"@)) matches Some(id) ==> after.response_id
                == id
            &&& text_in(field2(value, "response"@, "id"@)) is None ==> after.response_id
                == reply.response_id
            &&& text_field(value, "type"@) == Some("response.output_item.done"@) ==> (field(
                value,
                "item"@,
            ) matches Some(item) ==> after.items.len() == reply.items.len() + 1
                && after.items.drop_last() == reply.items && item_call(after.items.last())
                == item_call(item))
            &&& text_field(value, "type"@) != Some("response.output_item.done"@) || field(
                value,
                "item"@,
            ) is None ==> after.items == reply.items
        }),
{
    reveal_strlit("response.output_item.done");
    reveal_strlit("response.output_text.delta");
    reveal_strlit("response.completed");
    reveal_strlit("response.failed");
    reveal_strlit("response.incomplete");
    reveal_strlit("error");
    assert("response.output_item.done"@.len() == 25);
    assert("response.output_text.delta"@.len() == 26);
    assert("response.completed"@.len() == 18);
    assert("response.failed"@.len() == 15);
    assert("response.incomplete"@.len() == 19);
    assert("error"@.len() == 5);
    if let Some(item) = field(value, "item"@) {
        law_items_keep_what_they_say(item, "id"@);
        assert(reply.items.push(sanitized(item)).drop_last() =~= reply.items);
    }
}

/// What is done about a message of a connection. A ping is answered; what says nothing is waited past; an
/// event is told; the end of an answer is kept with the whole exchange, so that the next request can
/// continue it. A connection that breaks, closes or falls silent fails, and its session goes without one.
pub proof fn law_what_is_done_about_a_message(reply: ReplyView, message: SocketMessage)
    ensures
        match message {
            SocketMessage::Ping => message_step(reply, message) == (reply, StepView::Pong),
            SocketMessage::Pong => message_step(reply, message) == (reply, StepView::Wait),
            SocketMessage::Frame => message_step(reply, message) == (reply, StepView::Wait),
            SocketMessage::Text(text) => match json_parsed(text@) {
                Ok(value) => {
                    let after = reply_with(reply, value);
                    &&& message_step(reply, message).0 == after
                    &&& match event_of(text@) {
                        Err(e) => message_step(reply, message).1 == (StepView::Fail {
                            error: e,
                            fall_back: e is Stream || e is Transport,
                        }),
                        Ok(event) => if text_field(value, "type"@) == Some("response.completed"@) {
                            if after.response_id.len() > 0 {
                                message_step(reply, message).1 == (StepView::Finish {
                                    memory: MemoryView {
                                        properties: reply.properties,
                                        input: reply.input,
                                        response_id: after.response_id,
                                        items: after.items,
                                    },
                                    event,
                                })
                            } else {
                                message_step(reply, message).1 matches StepView::Fail {
                                    fall_back,
                                    ..
                                } && fall_back
                            }
                        } else {
                            message_step(reply, message).1 == (match event {
                                Some(e) => StepView::Tell(e),
                                None => StepView::Wait,
                            })
                        },
                    }
                },
                Err(_) => message_step(reply, message).0 == reply && (message_step(
                    reply,
                    message,
                ).1 matches StepView::Fail { fall_back, .. } && fall_back),
            },
            SocketMessage::Binary(_) => true,
            _ => message_step(reply, message).0 == reply && (message_step(reply, message).1
                matches StepView::Fail { fall_back, .. } && fall_back),
        },
{
    reveal_strlit("response.output_item.done");
    reveal_strlit("response.output_text.delta");
    reveal_strlit("response.completed");
    reveal_strlit("response.failed");
    reveal_strlit("response.incomplete");
    reveal_strlit("error");
    assert("response.output_item.done"@.len() == 25);
    assert("response.output_text.delta"@.len() == 26);
    assert("response.completed"@.len() == 18);
    assert("response.failed"@.len() == 15);
    assert("response.incomplete"@.len() == 19);
    assert("error"@.len() == 5);
}

/// A message of bytes is the text that they encode, and bytes that encode none fail the connection.
pub proof fn law_bytes_are_read_as_text(reply: ReplyView, bytes: Vec<u8>, text: String)
    ensures
        vstd::utf8::valid_utf8(bytes@) && vstd::utf8::decode_utf8(bytes@) == text@ ==> message_step(
            reply,
            SocketMessage::Binary(bytes),
        ) == message_step(reply, SocketMessage::Text(text)),
        !vstd::utf8::valid_utf8(bytes@) ==> (message_step(reply, SocketMessage::Binary(bytes)).1
            matches StepView::Fail { fall_back, .. } && fall_back),
{
}

/// The mode that a request asks for is its own, and where it leaves the choice, the configured one. One
/// that caches nothing asks for no marks.
pub proof fn law_requests_choose_their_caching(configured: OpenAiPromptCacheMode)
    ensures
        asked_mode(Some(PromptCacheStrategy::Explicit), configured)
            == OpenAiPromptCacheMode::Explicit,
        asked_mode(Some(PromptCacheStrategy::Implicit), configured)
            == OpenAiPromptCacheMode::Implicit,
        asked_mode(Some(PromptCacheStrategy::Auto), configured) == configured,
        asked_mode(None, configured) == OpenAiPromptCacheMode::Implicit,
{
}

} // verus!
