//! A Turn's history: how long it is, and what is kept of it when it grows too long.

use crate::agent::error::AgentError;
use crate::json::{json_text, text_field, Json};
use crate::model::error::{ModelError, ModelErrorView};
use crate::protocol::model::{
    call_views, item_views, lemma_item_views_push, user_message, CallView, ItemView, MessageRole,
    ModelInputItem, ModelToolCall,
};
use crate::text::{
    chars_of, debug_text, holds, is_blank, lemma_texts_push, quoted, same, texts, trimmed,
};
use vstd::prelude::*;
use vstd::utf8::encode_utf8;

verus! {

broadcast use {lemma_item_views_push, lemma_texts_push};

/// A number, or the greatest `usize` where it is greater.
pub open spec fn cap(n: int) -> int {
    if n > usize::MAX {
        usize::MAX as int
    } else {
        n
    }
}

/// A difference, or zero where it is negative.
pub open spec fn less(a: int, b: int) -> int {
    if a > b {
        a - b
    } else {
        0
    }
}

/// How many characters of a text are ASCII.
pub open spec fn ascii_count(s: Seq<char>) -> int
    decreases s.len(),
{
    if s.len() == 0 {
        0
    } else {
        ascii_count(s.drop_last()) + (if (s.last() as u32) < 128 {
            1int
        } else {
            0
        })
    }
}

/// The estimated tokens of a text: one for every four ASCII characters or part of four, and one for
/// every other character.
pub open spec fn text_tokens(s: Seq<char>) -> int {
    (ascii_count(s) + 3) / 4 + (s.len() - ascii_count(s))
}

proof fn lemma_ascii_count_bounds(s: Seq<char>)
    ensures
        0 <= ascii_count(s) <= s.len(),
    decreases s.len(),
{
    if s.len() > 0 {
        lemma_ascii_count_bounds(s.drop_last());
    }
}

/// Estimates the tokens of a text.
pub fn estimate_text_tokens(text: &str) -> (r: usize)
    ensures
        r == text_tokens(text@),
{
    let chars = chars_of(text);
    let mut ascii: usize = 0;
    let mut i: usize = 0;
    assert(text@.take(0) =~= Seq::<char>::empty());
    while i < chars.len()
        invariant
            i <= chars.len(),
            chars@ == text@,
            ascii == ascii_count(text@.take(i as int)),
            ascii <= i,
        decreases chars.len() - i,
    {
        assert(text@.take(i + 1).drop_last() =~= text@.take(i as int));
        if (chars[i] as u32) < 128 {
            ascii = ascii + 1;
        }
        i = i + 1;
    }
    assert(text@.take(text@.len() as int) =~= text@);
    let quarter: usize = if ascii % 4 == 0 {
        ascii / 4
    } else {
        ascii / 4 + 1
    };
    quarter + (chars.len() - ascii)
}

/// The estimated tokens of an item.
pub open spec fn item_tokens(item: ItemView) -> int {
    match item {
        ItemView::Message { content, .. } => cap(text_tokens(content) + 8),
        ItemView::FunctionCall { name, arguments, .. } => cap(
            cap(text_tokens(name) + text_tokens(arguments)) + 8,
        ),
        ItemView::FunctionCallOutput { output, .. } => cap(text_tokens(json_text(output)) + 8),
        ItemView::ResponseItem { item } => cap(text_tokens(json_text(item)) + 8),
    }
}

/// Estimates the tokens of an item.
pub fn estimate_input_item_tokens(item: &ModelInputItem) -> (r: usize)
    ensures
        r == item_tokens(item@),
{
    let content: usize = match item {
        ModelInputItem::Message { content, .. } => estimate_text_tokens(content.as_str()),
        ModelInputItem::FunctionCall { name, arguments, .. } => estimate_text_tokens(
            name.as_str(),
        ).saturating_add(estimate_text_tokens(arguments.as_str())),
        ModelInputItem::FunctionCallOutput { output, .. } => estimate_text_tokens(
            output.render().as_str(),
        ),
        ModelInputItem::ResponseItem { item } => estimate_text_tokens(item.render().as_str()),
    };
    content.saturating_add(8)
}

/// The estimated tokens of a history.
pub open spec fn history_tokens(history: Seq<ItemView>) -> int
    decreases history.len(),
{
    if history.len() == 0 {
        0
    } else {
        cap(history_tokens(history.drop_last()) + item_tokens(history.last()))
    }
}

/// Estimates the tokens of a history.
pub fn estimate_history_tokens(history: &Vec<ModelInputItem>) -> (r: usize)
    ensures
        r == history_tokens(item_views(history@)),
{
    let ghost all = item_views(history@);
    let mut total: usize = 0;
    let mut i: usize = 0;
    assert(all.take(0) =~= Seq::<ItemView>::empty());
    while i < history.len()
        invariant
            i <= history.len(),
            all == item_views(history@),
            total == history_tokens(all.take(i as int)),
        decreases history.len() - i,
    {
        assert(all.take(i + 1).drop_last() =~= all.take(i as int));
        assert(all.take(i + 1).last() == history@[i as int]@);
        total = total.saturating_add(estimate_input_item_tokens(&history[i]));
        i = i + 1;
    }
    assert(all.take(all.len() as int) =~= all);
    total
}

/// Where the tail that is kept begins, if the items from `i` on are kept and `used` tokens are
/// counted: items are taken from the end while they fit, the last one in any case.
pub open spec fn tail_start(history: Seq<ItemView>, i: int, used: int, max: int) -> int
    decreases i,
{
    if i <= 1 {
        1
    } else if cap(used + item_tokens(history[i - 1])) > max && i < history.len() {
        i
    } else {
        tail_start(history, i - 1, cap(used + item_tokens(history[i - 1])), max)
    }
}

/// A list without the tool outputs at its head.
pub open spec fn without_leading_outputs(items: Seq<ItemView>) -> Seq<ItemView>
    decreases items.len(),
{
    if items.len() > 0 && items[0] is FunctionCallOutput {
        without_leading_outputs(items.drop_first())
    } else {
        items
    }
}

/// What is kept of a history: the first item and a tail that fits, with no tool output at the head
/// of the tail, where its call would be missing.
pub open spec fn trimmed_history(history: Seq<ItemView>, max: int) -> Seq<ItemView> {
    if history_tokens(history) <= max || history.len() <= 2 {
        history
    } else {
        let start = tail_start(history, history.len() as int, item_tokens(history[0]), max);
        seq![history[0]] + without_leading_outputs(history.skip(start))
    }
}

proof fn lemma_tail_start_bounds(history: Seq<ItemView>, i: int, used: int, max: int)
    requires
        history.len() >= 1,
        i <= history.len(),
    ensures
        1 <= tail_start(history, i, used, max) <= history.len(),
        i >= 1 ==> tail_start(history, i, used, max) <= i,
    decreases i,
{
    if i > 1 {
        lemma_tail_start_bounds(history, i - 1, cap(used + item_tokens(history[i - 1])), max);
    }
}

/// Trims a history to a number of tokens and tells how many items went.
pub fn trim_history(history: &mut Vec<ModelInputItem>, max_tokens: usize) -> (removed: usize)
    ensures
        item_views(final(history)@) == trimmed_history(item_views(old(history)@), max_tokens as int),
        removed == old(history)@.len() - final(history)@.len(),
{
    let ghost all = item_views(history@);
    let total = estimate_history_tokens(history);
    if total <= max_tokens || history.len() <= 2 {
        return 0;
    }
    let n: usize = history.len();
    let mut used: usize = estimate_input_item_tokens(&history[0]);
    let mut i: usize = n;
    let mut go = true;
    while i > 1 && go
        invariant
            1 <= i <= n,
            n == history@.len(),
            all == item_views(history@),
            n > 2,
            tail_start(all, n as int, item_tokens(all[0]), max_tokens as int) == (if go {
                tail_start(all, i as int, used as int, max_tokens as int)
            } else {
                i as int
            }),
        decreases i + (if go {
            1int
        } else {
            0
        }),
    {
        assert(all[i - 1] == history@[i - 1]@);
        let size = estimate_input_item_tokens(&history[i - 1]);
        let next = used.saturating_add(size);
        if next > max_tokens && i < n {
            go = false;
        } else {
            used = next;
            i = i - 1;
        }
    }
    let ghost start = i as int;
    assert(start == tail_start(all, n as int, item_tokens(all[0]), max_tokens as int));
    assert(all.skip(start).skip(0) =~= all.skip(start));
    let mut j: usize = i;
    while j < n && is_output(&history[j])
        invariant
            start <= j <= n,
            n == history@.len(),
            all == item_views(history@),
            without_leading_outputs(all.skip(start)) == without_leading_outputs(all.skip(j as int)),
        decreases n - j,
    {
        assert(all.skip(j as int)[0] == history@[j as int]@);
        assert(all.skip(j as int).drop_first() =~= all.skip(j + 1));
        j = j + 1;
    }
    proof {
        if j < n {
            assert(all.skip(j as int)[0] == history@[j as int]@);
        }
        assert(without_leading_outputs(all.skip(start)) == all.skip(j as int));
    }
    let mut tail = history.split_off(j);
    history.truncate(1);
    history.append(&mut tail);
    assert(item_views(history@) =~= seq![all[0]] + all.skip(j as int));
    j - 1
}

fn is_output(item: &ModelInputItem) -> (r: bool)
    ensures
        r == (item@ is FunctionCallOutput),
{
    match item {
        ModelInputItem::FunctionCallOutput { .. } => true,
        _ => false,
    }
}

/// The user messages that a compacted history keeps of the first `i` items: from the last one back,
/// while they fit in what is left of the budget. One that is too long alone is passed over; once
/// some are kept, the first that does not fit ends the search.
pub open spec fn kept_messages(
    history: Seq<ItemView>,
    i: int,
    used: int,
    budget: int,
    some: bool,
) -> Seq<ItemView>
    decreases i,
{
    if i <= 0 {
        Seq::empty()
    } else {
        match history[i - 1] {
            ItemView::Message { role: MessageRole::User, content } => {
                let size = cap(text_tokens(content) + 8);
                if cap(used + size) > budget && some {
                    Seq::empty()
                } else if size <= less(budget, used) {
                    kept_messages(history, i - 1, cap(used + size), budget, true).push(
                        history[i - 1],
                    )
                } else {
                    kept_messages(history, i - 1, used, budget, some)
                }
            },
            _ => kept_messages(history, i - 1, used, budget, some),
        }
    }
}

/// What introduces a summary to the model that goes on from it.
pub open spec fn summary_prefix() -> Seq<char> {
    "Another model worked on this research session and produced the following checkpoint. Use it to continue without repeating completed work:"@
}

/// A history after compaction: user messages and the summary.
pub open spec fn compacted_history(
    history: Seq<ItemView>,
    summary: Seq<char>,
    budget: int,
) -> Seq<ItemView> {
    kept_messages(history, history.len() as int, 0, budget, false).push(
        user_message(summary_prefix() + "\n\n"@ + summary),
    )
}

/// Replaces a history by its last user messages and a summary.
pub fn build_compacted_history(
    history: &Vec<ModelInputItem>,
    summary: &str,
    user_message_budget: usize,
) -> (r: Vec<ModelInputItem>)
    ensures
        item_views(r@) == compacted_history(
            item_views(history@),
            summary@,
            user_message_budget as int,
        ),
{
    let ghost all = item_views(history@);
    let ghost budget = user_message_budget as int;
    let ghost whole = kept_messages(all, all.len() as int, 0, budget, false);
    let mut reversed: Vec<ModelInputItem> = Vec::new();
    let mut used: usize = 0;
    let mut i: usize = history.len();
    let mut go = true;
    assert(item_views(reversed@).reverse() =~= Seq::<ItemView>::empty());
    while i > 0 && go
        invariant
            i <= history.len(),
            all == item_views(history@),
            budget == user_message_budget,
            whole =~= (if go {
                kept_messages(all, i as int, used as int, budget, reversed@.len() > 0)
            } else {
                Seq::empty()
            }) + item_views(reversed@).reverse(),
        decreases i + (if go {
            1int
        } else {
            0
        }),
    {
        assert(all[i - 1] == history@[i - 1]@);
        let ghost before = reversed@;
        let ghost rest = kept_messages(all, i as int, used as int, budget, reversed@.len() > 0);
        match &history[i - 1] {
            ModelInputItem::Message { role: MessageRole::User, content } => {
                let size = estimate_text_tokens(content.as_str()).saturating_add(8);
                if used.saturating_add(size) > user_message_budget && reversed.len() > 0 {
                    go = false;
                } else {
                    if size <= user_message_budget.saturating_sub(used) {
                        let item = history[i - 1].clone();
                        reversed.push(item);
                        used = used.saturating_add(size);
                        assert(item_views(reversed@).reverse() =~= seq![all[i - 1]]
                            + item_views(before).reverse());
                    }
                    i = i - 1;
                }
            },
            _ => {
                i = i - 1;
            },
        }
    }
    assert(whole =~= item_views(reversed@).reverse());
    let mut selected: Vec<ModelInputItem> = Vec::new();
    assert(item_views(selected@) =~= whole.take(0));
    while reversed.len() > 0
        invariant
            whole.len() == selected@.len() + reversed@.len(),
            item_views(reversed@).reverse() == whole.skip(selected@.len() as int),
            item_views(selected@) == whole.take(selected@.len() as int),
        decreases reversed@.len(),
    {
        let ghost left = item_views(reversed@);
        let ghost n = selected@.len() as int;
        assert(left.last() == left.reverse()[0]);
        assert(left.reverse()[0] == whole[n]);
        match reversed.pop() {
            Some(item) => {
                assert(item@ == left.last());
                assert(item_views(reversed@) =~= left.drop_last());
                assert(left.drop_last().reverse() =~= left.reverse().drop_first());
                assert(whole.skip(n).drop_first() =~= whole.skip(n + 1));
                selected.push(item);
                assert(item_views(selected@) =~= whole.take(n + 1));
            },
            None => {},
        }
    }
    assert(whole.take(whole.len() as int) =~= whole);
    let mut content =
        "Another model worked on this research session and produced the following checkpoint. Use it to continue without repeating completed work:".to_owned();
    content.append("\n\n");
    content.append(summary);
    selected.push(ModelInputItem::Message { role: MessageRole::User, content });
    selected
}

/// The call that a response item asks for: nothing where the item is no call, and the name of the
/// first missing part where the call is not complete.
pub open spec fn item_call(item: crate::json::JsonView) -> Result<Option<CallView>, Seq<char>> {
    if text_field(item, "type"@) != Some("function_call"@) {
        Ok(None)
    } else if text_field(item, "call_id"@) is None {
        Err("call_id"@)
    } else if text_field(item, "name"@) is None {
        Err("name"@)
    } else if text_field(item, "arguments"@) is None {
        Err("arguments"@)
    } else {
        Ok(
            Some(
                CallView {
                    call_id: text_field(item, "call_id"@)->0,
                    name: text_field(item, "name"@)->0,
                    arguments: text_field(item, "arguments"@)->0,
                },
            ),
        )
    }
}

/// Whether an item is of the given type.
pub fn has_type(item: &Json, kind: &str) -> (r: bool)
    ensures
        r == (text_field(item@, "type"@) == Some(kind@)),
{
    match item.text_at("type") {
        Some(t) => same(t, kind),
        None => false,
    }
}

/// Reads the call that a response item asks for.
pub fn tool_call_from_response_item(item: &Json) -> (r: Result<Option<ModelToolCall>, ModelError>)
    ensures
        match r {
            Ok(None) => item_call(item@) == Ok::<Option<CallView>, Seq<char>>(None),
            Ok(Some(call)) => item_call(item@) == Ok::<Option<CallView>, Seq<char>>(Some(call@)),
            Err(e) => item_call(item@) is Err && e@ == ModelErrorView::Stream(
                "function call missing "@ + item_call(item@)->Err_0,
            ),
        },
{
    if !has_type(item, "function_call") {
        return Ok(None);
    }
    let call_id = match item.text_at("call_id") {
        Some(s) => s.to_owned(),
        None => {
            return Err(missing_part("call_id"));
        },
    };
    let name = match item.text_at("name") {
        Some(s) => s.to_owned(),
        None => {
            return Err(missing_part("name"));
        },
    };
    let arguments = match item.text_at("arguments") {
        Some(s) => s.to_owned(),
        None => {
            return Err(missing_part("arguments"));
        },
    };
    Ok(Some(ModelToolCall { call_id, name, arguments }))
}

fn missing_part(key: &str) -> (r: ModelError)
    ensures
        r@ == ModelErrorView::Stream("function call missing "@ + key@),
{
    let mut message = "function call missing ".to_owned();
    message.append(key);
    ModelError::Stream(message)
}

/// The identifier of the call that an item makes or answers.
pub open spec fn item_call_id(item: ItemView) -> Option<Seq<char>> {
    match item {
        ItemView::FunctionCall { call_id, .. } => Some(call_id),
        ItemView::FunctionCallOutput { call_id, .. } => Some(call_id),
        ItemView::ResponseItem { item } => if text_field(item, "type"@) == Some("function_call"@) {
            text_field(item, "call_id"@)
        } else {
            None
        },
        _ => None,
    }
}

/// The identifiers of the calls of a history, in order.
pub open spec fn history_call_ids(history: Seq<ItemView>) -> Seq<Seq<char>>
    decreases history.len(),
{
    if history.len() == 0 {
        Seq::empty()
    } else {
        match item_call_id(history.last()) {
            Some(id) => history_call_ids(history.drop_last()).push(id),
            None => history_call_ids(history.drop_last()),
        }
    }
}

/// Collects the identifiers of the calls of a history.
pub fn tool_call_ids_from_history(history: &Vec<ModelInputItem>) -> (r: Vec<String>)
    ensures
        texts(r@) == history_call_ids(item_views(history@)),
{
    let ghost all = item_views(history@);
    let mut r: Vec<String> = Vec::new();
    let mut i: usize = 0;
    assert(all.take(0) =~= Seq::<ItemView>::empty());
    assert(texts(r@) =~= Seq::<Seq<char>>::empty());
    while i < history.len()
        invariant
            i <= history.len(),
            all == item_views(history@),
            texts(r@) == history_call_ids(all.take(i as int)),
        decreases history.len() - i,
    {
        assert(all.take(i + 1).drop_last() =~= all.take(i as int));
        assert(all.take(i + 1).last() == history@[i as int]@);
        match &history[i] {
            ModelInputItem::FunctionCall { call_id, .. } => {
                r.push(call_id.clone());
            },
            ModelInputItem::FunctionCallOutput { call_id, .. } => {
                r.push(call_id.clone());
            },
            ModelInputItem::ResponseItem { item } => {
                if has_type(item, "function_call") {
                    match item.text_at("call_id") {
                        Some(id) => {
                            r.push(id.to_owned());
                        },
                        None => {},
                    }
                }
            },
            ModelInputItem::Message { .. } => {},
        }
        i = i + 1;
    }
    assert(all.take(all.len() as int) =~= all);
    r
}

/// What is wrong with the identifier of call `i`, where those before it are right.
pub open spec fn call_id_fault(
    calls: Seq<CallView>,
    used: Seq<Seq<char>>,
    i: int,
) -> Option<Seq<char>> {
    let id = calls[i].call_id;
    if trimmed(id).len() == 0 {
        Some("call ID is empty"@)
    } else if encode_utf8(id).len() > 512 {
        Some("call ID exceeds 512 bytes"@)
    } else if used.contains(id) || (exists|k: int|
        0 <= k < i && (#[trigger] calls[k]).call_id == id) {
        Some("duplicate call ID "@ + debug_text(id))
    } else {
        None
    }
}

/// What is wrong with the identifiers of some calls, by the first that is wrong from `i` on.
pub open spec fn call_ids_fault(calls: Seq<CallView>, used: Seq<Seq<char>>, i: int) -> Option<
    Seq<char>,
>
    decreases calls.len() - i,
{
    if i < 0 || i >= calls.len() {
        None
    } else if call_id_fault(calls, used, i) is Some {
        call_id_fault(calls, used, i)
    } else {
        call_ids_fault(calls, used, i + 1)
    }
}

/// The identifiers of some calls.
pub open spec fn ids_of(calls: Seq<CallView>) -> Seq<Seq<char>> {
    calls.map_values(|c: CallView| c.call_id)
}

/// Reserves the identifiers of some calls: all of them, or none where one is empty, too long or
/// taken.
pub fn reserve_tool_call_ids(calls: &Vec<ModelToolCall>, used: &mut Vec<String>) -> (r: Result<
    (),
    AgentError,
>)
    ensures
        match r {
            Ok(()) => call_ids_fault(call_views(calls@), texts(old(used)@), 0) is None && texts(
                final(used)@,
            ) == texts(old(used)@) + ids_of(call_views(calls@)),
            Err(e) => e is InvalidToolCallIdentity && call_ids_fault(
                call_views(calls@),
                texts(old(used)@),
                0,
            ) == Some(e->InvalidToolCallIdentity_0@) && final(used)@ == old(used)@,
        },
{
    let ghost all = call_views(calls@);
    let ghost taken = texts(used@);
    let mut fresh: Vec<String> = Vec::new();
    let mut i: usize = 0;
    assert(texts(fresh@) =~= ids_of(all).take(0));
    while i < calls.len()
        invariant
            i <= calls.len(),
            all == call_views(calls@),
            taken == texts(used@),
            used@ == old(used)@,
            call_ids_fault(all, taken, 0) == call_ids_fault(all, taken, i as int),
            texts(fresh@) == ids_of(all).take(i as int),
        decreases calls.len() - i,
    {
        let id = &calls[i].call_id;
        assert(all[i as int].call_id == id@);
        if is_blank(id.as_str()) {
            return Err(AgentError::InvalidToolCallIdentity("call ID is empty".to_owned()));
        }
        if id.as_str().as_bytes().len() > 512 {
            return Err(AgentError::InvalidToolCallIdentity("call ID exceeds 512 bytes".to_owned()));
        }
        let repeated = holds(&fresh, id.as_str());
        proof {
            assert(repeated == (exists|k: int|
                0 <= k < i && (#[trigger] all[k]).call_id == id@)) by {
                if repeated {
                    let k = texts(fresh@).index_of(id@);
                    assert(ids_of(all).take(i as int)[k] == all[k].call_id);
                }
                assert forall|k: int| 0 <= k < i && (#[trigger] all[k]).call_id == id@ implies texts(
                    fresh@,
                ).contains(id@) by {
                    assert(texts(fresh@)[k] == ids_of(all).take(i as int)[k]);
                }
            }
        }
        if holds(used, id.as_str()) || repeated {
            let mut fault = "duplicate call ID ".to_owned();
            fault.append(quoted(id.as_str()).as_str());
            return Err(AgentError::InvalidToolCallIdentity(fault));
        }
        fresh.push(id.clone());
        assert(texts(fresh@) =~= ids_of(all).take(i + 1));
        i = i + 1;
    }
    assert(texts(fresh@) =~= ids_of(all));
    used.append(&mut fresh);
    assert(texts(used@) =~= taken + ids_of(all));
    Ok(())
}

proof fn lemma_without_leading_outputs(items: Seq<ItemView>)
    ensures
        without_leading_outputs(items).len() > 0 ==> !(without_leading_outputs(
            items,
        )[0] is FunctionCallOutput),
        exists|k: int| 0 <= k <= items.len() && without_leading_outputs(items) == #[trigger] items.skip(k),
    decreases items.len(),
{
    if items.len() > 0 && items[0] is FunctionCallOutput {
        let rest = items.drop_first();
        lemma_without_leading_outputs(rest);
        let k = choose|k: int|
            0 <= k <= rest.len() && without_leading_outputs(rest) == #[trigger] rest.skip(k);
        assert(rest.skip(k) =~= items.skip(k + 1));
    } else {
        assert(items.skip(0) =~= items);
    }
}

/// Trimming keeps the objective: the first item stays, and what follows it is the end of the
/// history. Where items went, no tool output stands right behind the first item, its call lost.
pub proof fn law_trim_keeps_the_objective(history: Seq<ItemView>, max: int)
    requires
        history.len() > 0,
    ensures
        trimmed_history(history, max).len() > 0,
        trimmed_history(history, max)[0] == history[0],
        exists|k: int|
            1 <= k <= history.len() && trimmed_history(history, max) == seq![history[0]]
                + #[trigger] history.skip(k),
        trimmed_history(history, max) != history && trimmed_history(history, max).len() > 1
            ==> !(trimmed_history(history, max)[1] is FunctionCallOutput),
{
    let kept = trimmed_history(history, max);
    if history_tokens(history) <= max || history.len() <= 2 {
        assert(history =~= seq![history[0]] + history.skip(1));
    } else {
        let start = tail_start(history, history.len() as int, item_tokens(history[0]), max);
        lemma_tail_start_bounds(history, history.len() as int, item_tokens(history[0]), max);
        let tail = history.skip(start);
        lemma_without_leading_outputs(tail);
        let k = choose|k: int|
            0 <= k <= tail.len() && without_leading_outputs(tail) == #[trigger] tail.skip(k);
        assert(tail.skip(k) =~= history.skip(start + k));
        assert(kept =~= seq![history[0]] + history.skip(start + k));
    }
}

/// Trimming a history that fits changes nothing, and trimming never makes a history longer.
pub proof fn law_trim_only_removes(history: Seq<ItemView>, max: int)
    ensures
        history_tokens(history) <= max ==> trimmed_history(history, max) == history,
        trimmed_history(history, max).len() <= history.len(),
{
    if history_tokens(history) > max && history.len() > 2 {
        law_trim_keeps_the_objective(history, max);
        let k = choose|k: int|
            1 <= k <= history.len() && trimmed_history(history, max) == seq![history[0]]
                + #[trigger] history.skip(k);
        assert(trimmed_history(history, max).len() == 1 + history.len() - k);
    }
}

/// The tokens of some messages, by the estimate that compaction counts with.
pub open spec fn message_tokens(items: Seq<ItemView>) -> int
    decreases items.len(),
{
    if items.len() == 0 {
        0
    } else {
        message_tokens(items.drop_last()) + item_tokens(items.last())
    }
}

proof fn lemma_kept_messages(
    history: Seq<ItemView>,
    i: int,
    used: int,
    budget: int,
    some: bool,
)
    requires
        0 <= i <= history.len(),
        0 <= used,
        0 <= budget <= usize::MAX,
    ensures
        forall|k: int|
            0 <= k < kept_messages(history, i, used, budget, some).len() ==> (#[trigger] kept_messages(
                history,
                i,
                used,
                budget,
                some,
            )[k] matches ItemView::Message { role: MessageRole::User, .. }) && history.contains(
                kept_messages(history, i, used, budget, some)[k],
            ),
        used <= budget ==> used + message_tokens(kept_messages(history, i, used, budget, some))
            <= budget,
    decreases i,
{
    if i > 0 {
        match history[i - 1] {
            ItemView::Message { role: MessageRole::User, content } => {
                let size = cap(text_tokens(content) + 8);
                lemma_ascii_count_bounds(content);
                if cap(used + size) > budget && some {
                } else if size <= less(budget, used) {
                    let rest = kept_messages(history, i - 1, cap(used + size), budget, true);
                    lemma_kept_messages(history, i - 1, cap(used + size), budget, true);
                    assert(rest.push(history[i - 1]).drop_last() =~= rest);
                    assert(history.contains(history[i - 1]));
                } else {
                    lemma_kept_messages(history, i - 1, used, budget, some);
                }
            },
            _ => {
                lemma_kept_messages(history, i - 1, used, budget, some);
            },
        }
    }
}

/// A compacted history holds nothing but user messages of the history, within the budget, and the
/// summary behind them.
pub proof fn law_compaction_keeps_user_messages(
    history: Seq<ItemView>,
    summary: Seq<char>,
    budget: int,
)
    requires
        0 <= budget <= usize::MAX,
    ensures
        ({
            let made = compacted_history(history, summary, budget);
            let kept = made.drop_last();
            &&& made.last() == user_message(summary_prefix() + "\n\n"@ + summary)
            &&& message_tokens(kept) <= budget
            &&& forall|k: int|
                0 <= k < kept.len() ==> (#[trigger] kept[k] matches ItemView::Message {
                    role: MessageRole::User,
                    ..
                }) && history.contains(kept[k])
        }),
{
    lemma_kept_messages(history, history.len() as int, 0, budget, false);
    let kept = kept_messages(history, history.len() as int, 0, budget, false);
    assert(compacted_history(history, summary, budget).drop_last() =~= kept);
}

/// Calls whose identifiers were reserved share none with each other or with those used before.
pub proof fn law_reserved_ids_are_new(calls: Seq<CallView>, used: Seq<Seq<char>>, i: int, j: int)
    requires
        call_ids_fault(calls, used, 0) is None,
        0 <= i < j < calls.len(),
    ensures
        calls[i].call_id != calls[j].call_id,
        !used.contains(calls[i].call_id),
        !used.contains(calls[j].call_id),
{
    lemma_no_call_id_fault(calls, used, 0, i);
    lemma_no_call_id_fault(calls, used, 0, j);
}

proof fn lemma_no_call_id_fault(calls: Seq<CallView>, used: Seq<Seq<char>>, from: int, i: int)
    requires
        0 <= from <= i < calls.len(),
        call_ids_fault(calls, used, from) is None,
    ensures
        call_id_fault(calls, used, i) is None,
    decreases i - from,
{
    if from < i {
        lemma_no_call_id_fault(calls, used, from + 1, i);
    }
}

} // verus!
