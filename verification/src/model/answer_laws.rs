//! What is made of an answer that comes in parts.
//!
//! An answer of the Chat Completions API comes in chunks, and a chunk may hold parts of several calls.
//! Here is said that every part goes to the call that it belongs to, that nothing of an answer is lost
//! or made up, and that the whole answer is told at its end.

use crate::agent::history::item_call;
use crate::json::{field, field2, items_field, number_in, text_field, unsigned_field, JsonView};
use crate::model::chat_stream::{
    answer_events, by_index, called_item, choices_of, chunk_step, data_step, delta_of, end_told,
    grown, is_whole, lemma_parts_keep_order, new_parts, said_item, stream_step, thought_item,
    unheard, with_choice, with_part, with_parts, ChatStepView, ChatView, PartialView,
};
use crate::model::error::ModelErrorView;
use crate::model::laws::lemma_lookup_at;
use crate::model::http::SseMessage;
use crate::protocol::model::{CallView, ModelEventView};
use vstd::prelude::*;

verus! {

/// The call of an index, where there is one.
pub open spec fn call_of(calls: Seq<PartialView>, index: u64) -> Option<PartialView>
    decreases calls.len(),
{
    if calls.len() == 0 {
        None
    } else if calls[0].index == index {
        Some(calls[0])
    } else {
        call_of(calls.drop_first(), index)
    }
}

/// Whether the part at a place belongs to the call of an index: the index is the one that the part
/// names, or its place where it names none.
pub open spec fn is_part_of(parts: Seq<JsonView>, i: int, index: u64) -> bool {
    match field(parts[i], "index"@) {
        Some(JsonView::Integer(n)) => if 0 <= n <= u64::MAX {
            n == index
        } else {
            i as u64 == index
        },
        _ => i as u64 == index,
    }
}

/// What the parts of one call say under a key of their function, one after the other.
pub open spec fn said_by(parts: Seq<JsonView>, index: u64, key: Seq<char>) -> Seq<char>
    decreases parts.len(),
{
    if parts.len() == 0 {
        Seq::empty()
    } else {
        said_by(parts.drop_last(), index, key) + (if is_part_of(parts, parts.len() - 1, index) {
            match field2(parts.last(), "function"@, key) {
                Some(JsonView::Text(t)) => t,
                _ => Seq::empty(),
            }
        } else {
            Seq::empty()
        })
    }
}

/// The last identifier that the parts of one call give it, or else the one before.
pub open spec fn id_by(parts: Seq<JsonView>, index: u64, before: Seq<char>) -> Seq<char>
    decreases parts.len(),
{
    if parts.len() == 0 {
        before
    } else {
        match field(parts.last(), "id"@) {
            Some(JsonView::Text(id)) => if is_part_of(parts, parts.len() - 1, index) && id.len()
                > 0 {
                id
            } else {
                id_by(parts.drop_last(), index, before)
            },
            _ => id_by(parts.drop_last(), index, before),
        }
    }
}

/// Whether any part belongs to the call of an index.
pub open spec fn any_part_of(parts: Seq<JsonView>, index: u64) -> bool {
    exists|i: int| 0 <= i < parts.len() && #[trigger] is_part_of(parts, i, index)
}

proof fn lemma_call_of(calls: Seq<PartialView>, index: u64, i: int)
    requires
        by_index(calls),
    ensures
        call_of(calls, index) matches Some(call) ==> call.index == index && exists|j: int|
            0 <= j < calls.len() && #[trigger] calls[j] == call,
        0 <= i < calls.len() && calls[i].index == index ==> call_of(calls, index) == Some(calls[i]),
    decreases calls.len(),
{
    if calls.len() > 0 {
        let rest = calls.drop_first();
        assert(by_index(rest)) by {
            assert forall|a: int, b: int| 0 <= a < b < rest.len() implies (#[trigger] rest[a]).index
                < (#[trigger] rest[b]).index by {
                assert(rest[a] == calls[a + 1] && rest[b] == calls[b + 1]);
            }
        }
        lemma_call_of(rest, index, i - 1);
        if 0 < i < calls.len() {
            assert(rest[i - 1] == calls[i]);
            assert(calls[0].index < calls[i].index);
        }
        if calls[0].index == index {
            assert(calls[0] == call_of(calls, index)->0);
        } else if call_of(rest, index) is Some {
            let j = choose|j: int|
                0 <= j < rest.len() && #[trigger] rest[j] == call_of(rest, index)->0;
            assert(calls[j + 1] == call_of(calls, index)->0);
        }
    }
}

proof fn lemma_part_goes_to_its_call(
    calls: Seq<PartialView>,
    at: u64,
    part: JsonView,
    index: u64,
)
    requires
        by_index(calls),
    ensures
        call_of(with_part(calls, at, part), index) == (if at == index {
            Some(
                grown(
                    match call_of(calls, index) {
                        Some(call) => call,
                        None => unheard(index),
                    },
                    part,
                ),
            )
        } else {
            call_of(calls, index)
        }),
    decreases calls.len(),
{
    let made = with_part(calls, at, part);
    if calls.len() > 0 {
        let rest = calls.drop_first();
        assert(by_index(rest)) by {
            assert forall|a: int, b: int| 0 <= a < b < rest.len() implies (#[trigger] rest[a]).index
                < (#[trigger] rest[b]).index by {
                assert(rest[a] == calls[a + 1] && rest[b] == calls[b + 1]);
            }
        }
        if calls[0].index == at {
            assert(made.drop_first() =~= rest);
        } else if at < calls[0].index {
            assert(made.drop_first() =~= calls);
            if call_of(calls, at) is Some {
                lemma_call_of(calls, at, 0);
                let j = choose|j: int|
                    0 <= j < calls.len() && #[trigger] calls[j] == call_of(calls, at)->0;
                if j > 0 {
                    assert(calls[0].index < calls[j].index);
                }
            }
        } else {
            assert(made.drop_first() =~= with_part(rest, at, part));
            lemma_part_goes_to_its_call(rest, at, part, index);
        }
    } else {
        assert(made.drop_first() =~= Seq::<PartialView>::empty());
        assert(made[0] == grown(unheard(at), part));
        reveal_with_fuel(call_of, 3);
    }
}

/// Every part goes to the call that it belongs to, and to no other. After some parts there is a call
/// of an index if there was one before or a part belongs to it. Its name and its arguments are what
/// they were, and behind that what its own parts say, in their order. Its identifier is the last that
/// they give. The call of an index that no part belongs to is as it was.
pub proof fn law_parts_go_to_their_calls(
    calls: Seq<PartialView>,
    parts: Seq<JsonView>,
    index: u64,
)
    requires
        by_index(calls),
    ensures
        ({
            let before = match call_of(calls, index) {
                Some(call) => call,
                None => PartialView {
                    index,
                    call_id: Seq::empty(),
                    name: Seq::empty(),
                    arguments: Seq::empty(),
                },
            };
            let after = call_of(with_parts(calls, parts), index);
            &&& after is Some <==> call_of(calls, index) is Some || any_part_of(parts, index)
            &&& after is Some ==> {
                &&& (after->0).index == index
                &&& (after->0).name == before.name + said_by(parts, index, "name"@)
                &&& (after->0).arguments == before.arguments + said_by(parts, index, "arguments"@)
                &&& (after->0).call_id == id_by(parts, index, before.call_id)
            }
            &&& !any_part_of(parts, index) ==> after == call_of(calls, index)
        }),
    decreases parts.len(),
{
    lemma_call_of(calls, index, 0);
    if parts.len() == 0 {
        assert(!any_part_of(parts, index));
        if call_of(calls, index) is Some {
            let call = call_of(calls, index)->0;
            assert(call.name + said_by(parts, index, "name"@) =~= call.name);
            assert(call.arguments + said_by(parts, index, "arguments"@) =~= call.arguments);
        }
    } else {
        let rest = parts.drop_last();
        let last = parts.len() - 1;
        law_parts_go_to_their_calls(calls, rest, index);
        lemma_parts_keep_order(calls, rest);
        lemma_part_goes_to_its_call(
            with_parts(calls, rest),
            crate::model::chat_stream::part_index(parts.last(), last),
            parts.last(),
            index,
        );
        assert(any_part_of(parts, index) <==> any_part_of(rest, index) || is_part_of(
            parts,
            last,
            index,
        )) by {
            if any_part_of(rest, index) {
                let i = choose|i: int| 0 <= i < rest.len() && #[trigger] is_part_of(rest, i, index);
                assert(rest[i] == parts[i]);
                assert(is_part_of(parts, i, index));
            }
            if any_part_of(parts, index) && !is_part_of(parts, last, index) {
                let i = choose|i: int|
                    0 <= i < parts.len() && #[trigger] is_part_of(parts, i, index);
                assert(rest[i] == parts[i]);
                assert(is_part_of(rest, i, index));
            }
        }
        let before = match call_of(calls, index) {
            Some(call) => call,
            None => unheard(index),
        };
        let middle = call_of(with_parts(calls, rest), index);
        let after = call_of(with_parts(calls, parts), index);
        if middle is None {
            lemma_unheard(calls, rest, index);
        }
        if after is Some {
            assert((after->0).name =~= before.name + said_by(parts, index, "name"@));
            assert((after->0).arguments =~= before.arguments + said_by(
                parts,
                index,
                "arguments"@,
            ));
            let id = before.call_id;
            assert(id_by(rest, index, id) == (if middle is Some {
                (middle->0).call_id
            } else {
                id
            }));
            match field(parts.last(), "id"@) {
                Some(JsonView::Text(given)) => {
                    assert(id_by(parts, index, id) == (if is_part_of(parts, last, index)
                        && given.len() > 0 {
                        given
                    } else {
                        id_by(rest, index, id)
                    }));
                },
                _ => {
                    assert(id_by(parts, index, id) == id_by(rest, index, id));
                },
            }
        }
    }
}

proof fn lemma_unheard(calls: Seq<PartialView>, parts: Seq<JsonView>, index: u64)
    requires
        !any_part_of(parts, index),
    ensures
        said_by(parts, index, "name"@) == Seq::<char>::empty(),
        said_by(parts, index, "arguments"@) == Seq::<char>::empty(),
        forall|before: Seq<char>| #[trigger] id_by(parts, index, before) == before,
    decreases parts.len(),
{
    if parts.len() > 0 {
        let rest = parts.drop_last();
        assert(!any_part_of(rest, index)) by {
            if any_part_of(rest, index) {
                let i = choose|i: int| 0 <= i < rest.len() && #[trigger] is_part_of(rest, i, index);
                assert(rest[i] == parts[i]);
                assert(is_part_of(parts, i, index));
            }
        }
        assert(!is_part_of(parts, parts.len() - 1, index));
        lemma_unheard(calls, rest, index);
        assert forall|before: Seq<char>| #[trigger] id_by(parts, index, before) == before by {
            assert(id_by(rest, index, before) == before);
        }
    }
}

/// The indices of calls.
pub open spec fn indices(calls: Seq<PartialView>) -> Set<u64> {
    calls.map_values(|c: PartialView| c.index).to_set()
}

/// The indices of the calls that parts belong to.
pub open spec fn named(parts: Seq<JsonView>) -> Set<u64> {
    Set::new(|index: u64| any_part_of(parts, index))
}

/// There is one call of every index that came up, and no other: those of before and those that the
/// parts belong to.
pub proof fn law_one_call_for_every_index(calls: Seq<PartialView>, parts: Seq<JsonView>)
    requires
        by_index(calls),
    ensures
        indices(with_parts(calls, parts)) == indices(calls).union(named(parts)),
        with_parts(calls, parts).len() == indices(with_parts(calls, parts)).len(),
{
    let made = with_parts(calls, parts);
    lemma_parts_keep_order(calls, parts);
    assert forall|index: u64|
        indices(made).contains(index) <==> indices(calls).union(named(parts)).contains(index) by {
        law_parts_go_to_their_calls(calls, parts, index);
        lemma_indices(made, index);
        lemma_indices(calls, index);
    }
    assert(indices(made) =~= indices(calls).union(named(parts)));
    let all = made.map_values(|c: PartialView| c.index);
    assert(all.no_duplicates()) by {
        assert forall|i: int, j: int| 0 <= i < all.len() && 0 <= j < all.len() && i != j implies
            all[i] != all[j] by {
            if i < j {
                assert(made[i].index < made[j].index);
            } else {
                assert(made[j].index < made[i].index);
            }
        }
    }
    all.unique_seq_to_set();
}

proof fn lemma_indices(calls: Seq<PartialView>, index: u64)
    requires
        by_index(calls),
    ensures
        indices(calls).contains(index) <==> call_of(calls, index) is Some,
{
    let all = calls.map_values(|c: PartialView| c.index);
    lemma_call_of(calls, index, 0);
    if indices(calls).contains(index) {
        let i = choose|i: int| 0 <= i < all.len() && all[i] == index;
        assert(calls[i].index == index);
        lemma_call_of(calls, index, i);
    }
    if call_of(calls, index) is Some {
        let j = choose|j: int| 0 <= j < calls.len() && #[trigger] calls[j] == call_of(calls, index)->0;
        assert(all[j] == index);
    }
}

/// A chunk of one choice adds what it says to the answer: its text behind the text, its thought behind
/// the thought, and its parts to their calls.
pub proof fn law_chunks_add_to_the_answer(
    s: ChatView,
    chunk: JsonView,
    choice: JsonView,
    delta: JsonView,
    parts: Seq<JsonView>,
    index: u64,
)
    requires
        s.wf(),
        field(chunk, "error"@) is None,
        items_field(chunk, "choices"@) == Some(seq![choice]),
        field(choice, "delta"@) == Some(delta),
        items_field(delta, "tool_calls"@) == Some(parts) || (parts.len() == 0 && items_field(
            delta,
            "tool_calls"@,
        ) is None),
    ensures
        ({
            let after = chunk_step(s, chunk).0;
            let before = match call_of(s.calls, index) {
                Some(call) => call,
                None => PartialView {
                    index,
                    call_id: Seq::empty(),
                    name: Seq::empty(),
                    arguments: Seq::empty(),
                },
            };
            let call = call_of(after.calls, index);
            &&& after.wf()
            &&& after.text == s.text + (match text_field(delta, "content"@) {
                Some(t) => t,
                None => Seq::empty(),
            })
            &&& after.reasoning == s.reasoning + (match text_field(delta, "reasoning_content"@) {
                Some(t) => t,
                None => Seq::empty(),
            })
            &&& call is Some <==> call_of(s.calls, index) is Some || any_part_of(parts, index)
            &&& call is Some ==> {
                &&& (call->0).name == before.name + said_by(parts, index, "name"@)
                &&& (call->0).arguments == before.arguments + said_by(parts, index, "arguments"@)
                &&& (call->0).call_id == id_by(parts, index, before.call_id)
            }
            &&& !any_part_of(parts, index) ==> call == call_of(s.calls, index)
            &&& indices(after.calls) == indices(s.calls).union(named(parts))
            &&& after.calls.len() == indices(after.calls).len()
            &&& after.terminal <==> s.terminal || text_field(choice, "finish_reason"@) == Some(
                "stop"@,
            ) || text_field(choice, "finish_reason"@) == Some("tool_calls"@)
        }),
{
    let more = crate::model::chat_stream::with_usage(s, chunk);
    assert(choices_of(chunk) == seq![choice]);
    assert(choices_of(chunk)[0] == choice);
    assert(delta_of(choice) == delta);
    assert(new_parts(choice) =~= parts);
    law_parts_go_to_their_calls(s.calls, parts, index);
    law_one_call_for_every_index(s.calls, parts);
    lemma_parts_keep_order(s.calls, parts);
    assert(chunk_step(s, chunk).0 == with_choice(more, choice));
}

/// A chunk of no choice adds nothing to the answer but its usage, and one that tells of an error, or of
/// more than one choice, is an error.
pub proof fn law_other_chunks_add_nothing(s: ChatView, chunk: JsonView)
    requires
        field(chunk, "error"@) is Some || items_field(chunk, "choices"@) is None || (items_field(
            chunk,
            "choices"@,
        )->0).len() != 1,
    ensures
        chunk_step(s, chunk).0.text == s.text,
        chunk_step(s, chunk).0.reasoning == s.reasoning,
        chunk_step(s, chunk).0.calls == s.calls,
        chunk_step(s, chunk).0.terminal == s.terminal,
        chunk_step(s, chunk).1 is Ok <==> field(chunk, "error"@) is None && (items_field(
            chunk,
            "choices"@,
        ) matches Some(choices) ==> choices.len() == 0),
        chunk_step(s, chunk).1 matches Ok(events) ==> events.len() == 0,
{
}

/// The usage of an answer is the last that came: what the provider counted of the prompt and of the
/// answer, and of the prompt what was cached. A chunk that tells no usage leaves it.
pub proof fn law_usage_is_the_last_told(s: ChatView, chunk: JsonView)
    requires
        field(chunk, "error"@) is None,
    ensures
        ({
            let after = chunk_step(s, chunk).0.usage;
            match field(chunk, "usage"@) {
                Some(JsonView::Object(usage)) => {
                    let usage = JsonView::Object(usage);
                    &&& unsigned_field(usage, "prompt_tokens"@) matches Some(n)
                        ==> after.input_tokens == n
                    &&& unsigned_field(usage, "completion_tokens"@) matches Some(n)
                        ==> after.output_tokens == n
                    &&& unsigned_field(usage, "prompt_cache_hit_tokens"@) matches Some(n)
                        ==> after.cached_input_tokens == n
                    &&& field(usage, "prompt_cache_hit_tokens"@) is None
                        ==> after.cached_input_tokens == number_in(
                        field2(usage, "prompt_tokens_details"@, "cached_tokens"@),
                    )
                    &&& unsigned_field(usage, "prompt_tokens"@) is None ==> after.input_tokens == 0
                    &&& unsigned_field(usage, "completion_tokens"@) is None ==> after.output_tokens
                        == 0
                    &&& after.cache_write_input_tokens == 0
                },
                None => after == s.usage,
                Some(JsonView::Null) => after == s.usage,
                _ => true,
            }
        }),
{
}

/// A chunk is refused for why it ends exactly if it ends for anything but a full answer or calls: for
/// want of room it is incomplete.
pub proof fn law_only_good_ends(s: ChatView, chunk: JsonView, choice: JsonView)
    requires
        field(chunk, "error"@) is None,
        items_field(chunk, "choices"@) == Some(seq![choice]),
    ensures
        chunk_step(s, chunk).1 is Ok <==> (text_field(choice, "finish_reason"@) matches Some(reason)
            ==> reason == "stop"@ || reason == "tool_calls"@),
        text_field(choice, "finish_reason"@) == Some("length"@) ==> (chunk_step(s, chunk).1
            matches Err(ModelErrorView::IncompleteResponse { usage, .. }) && usage == chunk_step(
            s,
            chunk,
        ).0.usage),
{
    reveal_strlit("tool_calls");
    reveal_strlit("stop");
    reveal_strlit("length");
    assert("tool_calls"@.len() == 10);
    assert("stop"@.len() == 4);
    assert("length"@.len() == 6);
    assert(choices_of(chunk) == seq![choice]);
    assert(choices_of(chunk)[0] == choice);
}

/// The data of a chunk are the chunk that they are read as, and data that are no JSON change nothing
/// and are an error.
pub proof fn law_data_are_read_as_chunks(s: ChatView, data: Seq<char>)
    ensures
        match crate::json::json_parsed(data) {
            Ok(chunk) => data_step(s, data) == chunk_step(s, chunk),
            Err(_) => data_step(s, data).0 == s && data_step(s, data).1 is Err,
        },
{
}

proof fn lemma_calls_are_read_back(call: PartialView)
    ensures
        item_call(called_item(call)) == Ok::<Option<CallView>, Seq<char>>(
            Some(
                CallView { call_id: call.call_id, name: call.name, arguments: call.arguments },
            ),
        ),
{
    reveal_strlit("call_id");
    reveal_strlit("arguments");
    reveal_strlit("name");
    reveal_strlit("type");
    assert("call_id"@.len() == 7);
    assert("arguments"@.len() == 9);
    assert("name"@.len() == 4);
    assert("type"@.len() == 4);
    assert("type"@[0] != "name"@[0]);
    let made = called_item(call)->Object_0;
    lemma_lookup_at(made, "arguments"@, 0);
    lemma_lookup_at(made, "call_id"@, 1);
    lemma_lookup_at(made, "name"@, 2);
    lemma_lookup_at(made, "type"@, 3);
}

/// The end of a finished answer tells all of it: first its thought and its text, where it has any,
/// each as one item; then each of its calls, in the order of their indices, from whose item the call is
/// read back as it was put together; and last the usage.
pub proof fn law_answers_are_told_whole(s: ChatView, i: int)
    requires
        s.terminal,
        forall|i: int|
            0 <= i < s.calls.len() ==> crate::text::trimmed((#[trigger] s.calls[i]).call_id).len()
                > 0 && crate::text::trimmed(s.calls[i].name).len() > 0,
    ensures
        end_told(s) matches Ok(events) && {
            let thoughts: int = if s.reasoning.len() > 0 {
                1
            } else {
                0
            };
            let texts: int = if s.text.len() > 0 {
                1
            } else {
                0
            };
            &&& events.len() == thoughts + texts + s.calls.len() + 1
            &&& s.reasoning.len() > 0 ==> (events[0] matches ModelEventView::ResponseItemCompleted(
                item,
            ) && text_field(item, "type"@) == Some("reasoning"@) && text_field(item, "content"@)
                == Some(s.reasoning))
            &&& s.text.len() > 0 ==> (events[thoughts]
                matches ModelEventView::ResponseItemCompleted(item) && text_field(item, "type"@)
                == Some("message"@) && text_field(item, "role"@) == Some("assistant"@) && (
            items_field(item, "content"@) matches Some(blocks) && blocks.len() == 1 && text_field(
                blocks[0],
                "text"@,
            ) == Some(s.text)))
            &&& 0 <= i < s.calls.len() ==> (events[thoughts + texts + i]
                matches ModelEventView::ResponseItemCompleted(item) && item_call(item) == Ok::<
                Option<CallView>,
                Seq<char>,
            >(
                Some(
                    CallView {
                        call_id: s.calls[i].call_id,
                        name: s.calls[i].name,
                        arguments: s.calls[i].arguments,
                    },
                ),
            ))
            &&& events.last() == ModelEventView::Completed(s.usage)
        },
{
    reveal_strlit("role");
    reveal_strlit("content");
    reveal_strlit("type");
    reveal_strlit("text");
    assert("role"@.len() == 4);
    assert("content"@.len() == 7);
    assert("type"@.len() == 4);
    assert("text"@.len() == 4);
    assert("type"@[0] != "role"@[0]);
    assert("text"@[0] != "role"@[0]);
    assert("text"@[1] != "type"@[1]);
    if 0 <= i < s.calls.len() {
        lemma_calls_are_read_back(s.calls[i]);
    }
    let thought = thought_item(s.reasoning)->Object_0;
    lemma_lookup_at(thought, "content"@, 0);
    lemma_lookup_at(thought, "type"@, 1);
    let said = said_item(s.text)->Object_0;
    lemma_lookup_at(said, "content"@, 0);
    lemma_lookup_at(said, "role"@, 1);
    lemma_lookup_at(said, "type"@, 2);
    let block = (said[0].1->Array_0)[0]->Object_0;
    lemma_lookup_at(block, "text"@, 0);
    assert(end_told(s) == Ok::<Seq<ModelEventView>, ModelErrorView>(answer_events(s)));
}

/// An answer that had no reason to end, or of which a call lacks its identifier or its name, is an
/// error.
pub proof fn law_unfinished_answers_are_errors(s: ChatView, i: int)
    requires
        !s.terminal || (0 <= i < s.calls.len() && (crate::text::trimmed(s.calls[i].call_id).len()
            == 0 || crate::text::trimmed(s.calls[i].name).len() == 0)),
    ensures
        end_told(s) is Err,
{
    if s.terminal {
        assert(!is_whole(s.calls[i]));
    }
}

/// A stream goes on with every message but its end. What came of the answer is kept, blank data say
/// nothing, and a stream that breaks, stops or falls silent before its end fails.
pub proof fn law_streams_end_at_their_end(s: ChatView, message: SseMessage, idle_seconds: u64)
    ensures
        match message {
            SseMessage::Data(data) => if crate::text::trimmed(data@).len() == 0 {
                stream_step(s, message, idle_seconds) == (s, ChatStepView::Go(Seq::empty()))
            } else if crate::text::trimmed(data@) == "[DONE]"@ {
                &&& stream_step(s, message, idle_seconds).0 == s
                &&& !(stream_step(s, message, idle_seconds).1 is Go)
                &&& stream_step(s, message, idle_seconds).1 is Finish <==> end_told(s) is Ok
                &&& stream_step(s, message, idle_seconds).1 matches ChatStepView::Finish(events)
                    ==> end_told(s) == Ok::<Seq<ModelEventView>, ModelErrorView>(events)
            } else {
                &&& stream_step(s, message, idle_seconds).0 == data_step(s, data@).0
                &&& !(stream_step(s, message, idle_seconds).1 is Finish)
                &&& stream_step(s, message, idle_seconds).1 is Go <==> data_step(s, data@).1 is Ok
            },
            _ => stream_step(s, message, idle_seconds).0 == s && stream_step(
                s,
                message,
                idle_seconds,
            ).1 is Fail,
        },
{
}

} // verus!
