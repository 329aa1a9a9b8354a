//! What a Turn owes to the person who asked for it and to the model that it asks.
//!
//! [`super::transitions`] says what a Turn does at each step. Here is said what comes of it: what the
//! model is shown of what a person said, what is kept of an answer, and when a Turn ends.

use crate::agent::error::AgentErrorView;
use crate::agent::history::{
    ascii_count, call_id_fault, call_ids_fault, cap, history_call_ids, history_tokens, item_call_id,
    item_tokens, kept_messages, less, message_tokens, tail_start, text_tokens, trimmed_history,
    without_leading_outputs,
};
use crate::agent::request::{AgentCheckpoint, AgentTurnRequest, CheckpointView, EventView, OutcomeView};
use crate::agent::sample::{received, SampleView, SamplingView};
use crate::agent::step::tools_tokens;
use crate::agent::transitions::{
    advanced, asked_history, compaction_request, expects, finish_prompt, guided, has_message,
    outcome_view, sample_fault, sampling, search_count, search_events, settled_history, started,
    unreplayed, AttemptView, NextView, PhaseView, TurnInput, TurnView,
};
use crate::json::{text_field, JsonView};
use crate::protocol::model::{
    format_view, item_views, no_usage, usage_sum, user_message, CallView, ItemView, MessageRole,
    ModelEventView, ModelToolChoice, ReasoningEffort, TokenUsage, ToolView,
};
use crate::text::{ends_with, trimmed};
use vstd::prelude::*;
use vstd::utf8::encode_utf8;

verus! {

/// Whether an item is a user's message with some content.
pub open spec fn user_says(item: ItemView, content: Seq<char>) -> bool {
    item matches ItemView::Message { role: MessageRole::User, content: said } && said == content
}

/// Whether a history is another one with what a person asks for behind it: the instruction to
/// finish, if there is one, and each piece of guidance, in order.
pub open spec fn heard(
    full: Seq<ItemView>,
    history: Seq<ItemView>,
    checkpoint: CheckpointView,
) -> bool {
    let finish: int = if checkpoint.finish is Some {
        1
    } else {
        0
    };
    &&& full.len() == history.len() + finish + checkpoint.guidance.len()
    &&& forall|i: int| 0 <= i < history.len() ==> #[trigger] full[i] == history[i]
    &&& checkpoint.finish matches Some(instruction) ==> user_says(
        full[history.len() as int],
        "The action control plane requested that this action finish now:\n"@ + instruction,
    )
    &&& forall|i: int|
        0 <= i < checkpoint.guidance.len() ==> user_says(
            full[history.len() + finish + i],
            "Human guidance for this running action:\n"@ + #[trigger] checkpoint.guidance[i],
        )
}

proof fn lemma_heard_is_guided(
    full: Seq<ItemView>,
    history: Seq<ItemView>,
    checkpoint: CheckpointView,
)
    requires
        heard(full, history, checkpoint),
    ensures
        guided(history, checkpoint) == full,
{
    let made = guided(history, checkpoint);
    let start = full.len() - checkpoint.guidance.len();
    assert(made.len() == full.len());
    assert forall|i: int| 0 <= i < full.len() implies made[i] == full[i] by {
        if i >= start {
            let said = checkpoint.guidance[i - start];
            assert(user_says(full[start + (i - start)], "Human guidance for this running action:\n"@ + said));
        } else if i < history.len() {
            assert(full[i] == history[i]);
        }
    }
    assert(made =~= full);
}

/// What a person says to a running Turn reaches the model: the history behind it holds every piece
/// of it. If that is long, it is compacted whole; if it fits in the budget, the model is shown all of
/// it, and the request to finish behind it where the person asked to finish.
pub proof fn law_guidance_reaches_the_model(
    t: TurnView,
    checkpoint: AgentCheckpoint,
    full: Seq<ItemView>,
)
    requires
        t.phase is Control,
        checkpoint.interrupt is None,
        heard(full, t.history, checkpoint@),
    ensures
        ({
            let made = advanced(t, TurnInput::Control(Ok(checkpoint)));
            let last = t.forced || checkpoint.finish is Some;
            let asked = if !last || (full.len() > 0 && user_says(full.last(), finish_prompt())) {
                full
            } else {
                full.push(user_message(finish_prompt()))
            };
            &&& made.turn.forced == last
            &&& history_tokens(full) >= t.trigger && full.len() > 2 ==> {
                &&& made.turn.phase is Compacting
                &&& made.turn.history == full
            }
            &&& !(history_tokens(full) >= t.trigger && full.len() > 2) && history_tokens(asked)
                <= t.budget ==> {
                &&& made.turn.history == asked
                &&& made.next matches NextView::Sample { request, tells } && tells && request.input
                    == asked
            }
        }),
{
    lemma_heard_is_guided(full, t.history, checkpoint@);
}

/// A Turn that a person interrupts, that is cancelled, whose record cannot be written or whose
/// control fails ends at once and says why.
pub proof fn law_interrupted_turns_end(
    t: TurnView,
    checkpoint: AgentCheckpoint,
    reason: String,
    fault: String,
)
    requires
        t.phase is Control,
        checkpoint.interrupt == Some(reason),
    ensures
        advanced(t, TurnInput::Control(Ok(checkpoint))).next == NextView::Done(
            OutcomeView::Failed(AgentErrorView::Interrupted(reason@)),
        ),
        advanced(t, TurnInput::Control(Err(fault))).next == NextView::Done(
            OutcomeView::Failed(AgentErrorView::Control(fault@)),
        ),
        advanced(t, TurnInput::SinkFailed(fault)).next == NextView::Done(
            OutcomeView::Failed(AgentErrorView::EventSink(fault@)),
        ),
        advanced(t, TurnInput::Cancelled).next == NextView::Done(
            OutcomeView::Failed(AgentErrorView::Cancelled),
        ),
{
}

/// A Turn starts with its history and its objective behind it, unless the history already holds it,
/// goes on counting where it stopped, and is asked about before it samples. One that was answered
/// already gives its answer again.
pub proof fn law_turns_start_with_their_objective(request: AgentTurnRequest, tools: Seq<ToolView>)
    ensures
        ({
            let made = started(request, tools);
            let before = item_views(request.initial_history@);
            let t = made.turn;
            &&& t.request == request
            &&& t.history.take(before.len() as int) == before
            &&& request.resume_current_turn ==> t.history.len() == before.len()
            &&& !request.resume_current_turn ==> t.history.len() == before.len() + 1 && user_says(
                t.history.last(),
                request.objective@,
            )
            &&& t.usage == request.initial_usage
            &&& t.searches == request.hosted_search_calls_used
            &&& !t.forced
            &&& made.events == seq![
                EventView::Started { objective: request.objective@, model: request.model@ },
            ]
            &&& t.budget > 0 && request.checkpoint_message is None && request.completed_model_steps
                < u32::MAX ==> made.next is Control && t.phase is Control && t.step
                == request.completed_model_steps + 1
            &&& t.budget > 0 ==> (request.checkpoint_message matches Some(message) ==> made.next
                == NextView::Done(
                OutcomeView::Finished(
                    crate::agent::request::ResultView {
                        final_message: message@,
                        history: t.history,
                        steps: request.completed_model_steps,
                        usage: request.initial_usage,
                    },
                ),
            ))
        }),
{
    let before = item_views(request.initial_history@);
    let t = started(request, tools).turn;
    assert(t.history.take(before.len() as int) =~= before);
}

/// A Turn offers the tools of its registry where it may use tools, and the hosted ones only where its
/// route has them and the size of their results is set.
pub proof fn law_turns_offer_their_tools(request: AgentTurnRequest, tools: Seq<ToolView>)
    ensures
        ({
            let t = started(request, tools).turn;
            &&& request.tools_enabled ==> t.tools == tools
            &&& !request.tools_enabled ==> t.tools.len() == 0 && t.hosted.len() == 0
            &&& request.tools_enabled && request.hosted_web_search_supported
                && request.web_search_context_size is Some ==> t.hosted == request.hosted_tools@
            &&& t.hosted.len() > 0 ==> request.hosted_web_search_supported
                && request.web_search_context_size is Some
        }),
{
}

/// The history of a Turn leaves room in the model's window: for the instructions, for the tools, and
/// for an answer. A history is compacted from nine tenths of that on.
pub proof fn law_history_leaves_room(request: AgentTurnRequest, tools: Seq<ToolView>)
    requires
        request.model_context_window < usize::MAX / 90,
    ensures
        ({
            let made = started(request, tools);
            let t = made.turn;
            &&& t.budget >= 0
            &&& t.budget > 0 ==> t.budget + text_tokens(request.instructions@) + tools_tokens(t.tools)
                + 1024 + 256 <= request.model_context_window
            &&& t.trigger == t.budget * 90 / 100
            &&& (text_tokens(request.instructions@) + tools_tokens(t.tools) + 16384 + 4096
                < request.model_context_window ==> t.budget > 0)
        }),
{
    let offered = started(request, tools).turn.tools;
    lemma_tools_tokens(offered);
    lemma_text_tokens(request.instructions@);
}

proof fn lemma_text_tokens(s: Seq<char>)
    ensures
        0 <= ascii_count(s) <= s.len(),
        0 <= text_tokens(s) <= s.len(),
    decreases s.len(),
{
    if s.len() > 0 {
        lemma_text_tokens(s.drop_last());
    }
}

proof fn lemma_tools_tokens(tools: Seq<ToolView>)
    ensures
        0 <= tools_tokens(tools),
    decreases tools.len(),
{
    if tools.len() > 0 {
        lemma_tools_tokens(tools.drop_last());
        let tool = tools.last();
        lemma_text_tokens(tool.name);
        lemma_text_tokens(tool.description);
        lemma_text_tokens(crate::json::json_text(tool.input_schema));
    }
}

/// Whether a request is one that a Turn makes of its model: it asks the model that the Turn was
/// given, with its instructions and in its form, and offers its tools unless the step is the last.
pub open spec fn request_is_of(t: TurnView, r: crate::protocol::model::RequestView) -> bool {
    &&& r.model == t.request.model@
    &&& r.instructions == t.request.instructions@
    &&& r.response_format == format_view(t.request.response_format)
    &&& r.web_search_context_size == t.request.web_search_context_size
    &&& r.reasoning_effort == t.request.reasoning_effort || r.reasoning_effort == Some(
        ReasoningEffort::Low,
    )
    &&& t.forced ==> r.tools.len() == 0 && r.hosted_tools.len() == 0 && r.tool_choice
        == ModelToolChoice::Never && !r.parallel_tool_calls
    &&& !t.forced ==> r.tools == t.tools && r.hosted_tools == t.hosted && r.tool_choice
        == ModelToolChoice::Auto
    &&& !t.forced && (t.tools.len() > 0 || t.hosted.len() > 0) ==> r.parallel_tool_calls
}

/// Whether a Turn that samples makes a request of its own.
pub open spec fn asks_as_told(t: TurnView) -> bool {
    match t.phase {
        PhaseView::Sampling(a) => request_is_of(t, a.request),
        PhaseView::Waiting(a) => request_is_of(t, a.request),
        _ => true,
    }
}

/// What a Turn was asked for does not change while it runs, and every request that it makes is of it:
/// a sample as it was told to, and a summary from the same model, without tools.
pub proof fn law_requests_are_of_the_turn(t: TurnView, input: TurnInput)
    requires
        expects(t.phase, input),
        asks_as_told(t),
    ensures
        ({
            let made = advanced(t, input);
            &&& made.turn.request == t.request
            &&& made.turn.tools == t.tools
            &&& made.turn.hosted == t.hosted
            &&& made.turn.budget == t.budget
            &&& made.turn.trigger == t.trigger
            &&& asks_as_told(made.turn)
            &&& made.next matches NextView::Sample { request, tells } ==> {
                &&& request.model == t.request.model@
                &&& request.instructions == t.request.instructions@
                &&& tells ==> (made.turn.phase matches PhaseView::Sampling(a) && a.request
                    == request)
                &&& !tells ==> made.turn.phase is Compacting && request.tools.len() == 0
                    && request.hosted_tools.len() == 0 && request.response_format is None
                    && request.reasoning_effort == t.request.reasoning_effort
            }
        }),
{
}

/// Every Turn starts with nothing asked.
pub proof fn law_turns_start_as_told(request: AgentTurnRequest, tools: Seq<ToolView>)
    ensures
        asks_as_told(started(request, tools).turn),
{
}

/// A summary is asked for with the history in view: its first item stands first, and the prompt for
/// the summary stands last.
pub proof fn law_summaries_are_of_the_history(t: TurnView)
    requires
        t.history.len() > 0,
    ensures
        compaction_request(t).input.len() >= 2,
        compaction_request(t).input[0] == t.history[0],
        compaction_request(t).input.last() == user_message(
            crate::agent::transitions::compaction_prompt(),
        ),
        history_tokens(t.history) + text_tokens(crate::agent::transitions::compaction_prompt()) + 8
            <= t.budget ==> compaction_request(t).input.drop_last() == t.history,
{
    let prompt = crate::agent::transitions::compaction_prompt();
    let room = less(t.budget, cap(text_tokens(prompt) + 8));
    let most = if room > 1 {
        room
    } else {
        1
    };
    crate::agent::history::law_trim_keeps_the_objective(t.history, most);
    lemma_history_tokens(t.history);
    lemma_text_tokens(prompt);
    let kept = trimmed_history(t.history, most);
    assert(compaction_request(t).input.drop_last() =~= kept);
}

proof fn lemma_item_tokens(item: ItemView)
    ensures
        0 <= item_tokens(item) <= usize::MAX,
{
    match item {
        ItemView::Message { content, .. } => lemma_text_tokens(content),
        ItemView::FunctionCall { name, arguments, .. } => {
            lemma_text_tokens(name);
            lemma_text_tokens(arguments);
        },
        ItemView::FunctionCallOutput { output, .. } => lemma_text_tokens(
            crate::json::json_text(output),
        ),
        ItemView::ResponseItem { item } => lemma_text_tokens(crate::json::json_text(item)),
    }
}

proof fn lemma_history_tokens(history: Seq<ItemView>)
    ensures
        0 <= history_tokens(history) <= usize::MAX,
        history_tokens(history) == cap(message_tokens(history)),
        0 <= message_tokens(history),
    decreases history.len(),
{
    if history.len() > 0 {
        lemma_history_tokens(history.drop_last());
        lemma_item_tokens(history.last());
    }
}

proof fn lemma_tokens_of_both(a: Seq<ItemView>, b: Seq<ItemView>)
    ensures
        message_tokens(a + b) == message_tokens(a) + message_tokens(b),
    decreases b.len(),
{
    if b.len() == 0 {
        assert(a + b =~= a);
    } else {
        lemma_tokens_of_both(a, b.drop_last());
        assert((a + b).drop_last() =~= a + b.drop_last());
        assert((a + b).last() == b.last());
    }
}

/// The tokens of a history are those of its items together, up to the greatest number.
pub proof fn law_tokens_add_up(a: Seq<ItemView>, b: Seq<ItemView>)
    ensures
        history_tokens(a) + history_tokens(b) < usize::MAX ==> history_tokens(a + b)
            == history_tokens(a) + history_tokens(b),
        history_tokens(a) <= history_tokens(a + b),
        history_tokens(b) <= history_tokens(a + b),
{
    lemma_tokens_of_both(a, b);
    lemma_history_tokens(a);
    lemma_history_tokens(b);
    lemma_history_tokens(a + b);
}

proof fn lemma_ascii_count_of_both(a: Seq<char>, b: Seq<char>)
    ensures
        ascii_count(a + b) == ascii_count(a) + ascii_count(b),
    decreases b.len(),
{
    if b.len() == 0 {
        assert(a + b =~= a);
    } else {
        lemma_ascii_count_of_both(a, b.drop_last());
        assert((a + b).drop_last() =~= a + b.drop_last());
        assert((a + b).last() == b.last());
    }
}

proof fn lemma_ascii_count_of_one_kind(s: Seq<char>)
    ensures
        (forall|i: int| 0 <= i < s.len() ==> (#[trigger] s[i] as u32) < 128) ==> ascii_count(s)
            == s.len(),
        (forall|i: int| 0 <= i < s.len() ==> (#[trigger] s[i] as u32) >= 128) ==> ascii_count(s) == 0,
    decreases s.len(),
{
    if s.len() > 0 {
        let rest = s.drop_last();
        lemma_ascii_count_of_one_kind(rest);
        assert(s.last() == s[s.len() - 1]);
        assert(forall|i: int| 0 <= i < rest.len() ==> rest[i] == s[i]);
    }
}

/// A text has a token for four ASCII characters or a part of them and one for every other character,
/// and a longer text never has fewer.
pub proof fn law_tokens_of_texts(a: Seq<char>, b: Seq<char>)
    ensures
        (forall|i: int| 0 <= i < a.len() ==> (#[trigger] a[i] as u32) < 128) ==> 4 * text_tokens(a)
            >= a.len() && 4 * text_tokens(a) < a.len() + 4,
        (forall|i: int| 0 <= i < a.len() ==> (#[trigger] a[i] as u32) >= 128) ==> text_tokens(a)
            == a.len(),
        text_tokens(a) <= text_tokens(a + b) <= text_tokens(a) + text_tokens(b),
{
    lemma_ascii_count_of_one_kind(a);
    lemma_ascii_count_of_both(a, b);
    lemma_text_tokens(a);
    lemma_text_tokens(b);
}

/// An item has the tokens of all that the model is shown of it, and a few more.
pub proof fn law_tokens_of_items(
    role: MessageRole,
    call_id: Seq<char>,
    name: Seq<char>,
    text: Seq<char>,
    value: JsonView,
)
    requires
        text.len() + name.len() + 8 <= usize::MAX,
        crate::json::json_text(value).len() + 8 <= usize::MAX,
    ensures
        item_tokens(ItemView::Message { role, content: text }) == text_tokens(text) + 8,
        item_tokens(ItemView::FunctionCall { call_id, name, arguments: text }) == text_tokens(name)
            + text_tokens(text) + 8,
        item_tokens(ItemView::FunctionCallOutput { call_id, output: value }) == text_tokens(
            crate::json::json_text(value),
        ) + 8,
        item_tokens(ItemView::ResponseItem { item: value }) == text_tokens(
            crate::json::json_text(value),
        ) + 8,
{
    lemma_text_tokens(text);
    lemma_text_tokens(name);
    lemma_text_tokens(crate::json::json_text(value));
}

proof fn lemma_tail(history: Seq<ItemView>, i: int, used: int, max: int)
    requires
        history.len() > 1,
        1 <= i <= history.len(),
        used == item_tokens(history[0]) + message_tokens(history.skip(i)),
        message_tokens(history) <= usize::MAX,
        i < history.len() ==> used <= max || i == history.len() - 1,
    ensures
        ({
            let k = tail_start(history, i, used, max);
            &&& 1 <= k <= i
            &&& i == history.len() ==> k < history.len()
            &&& k < history.len() - 1 ==> item_tokens(history[0]) + message_tokens(history.skip(k))
                <= max
            &&& k > 1 ==> item_tokens(history[0]) + message_tokens(history.skip(k - 1)) > max
        }),
    decreases i,
{
    if i > 1 {
        let one = seq![history[i - 1]];
        let after = history.skip(i);
        assert(history.skip(i - 1) =~= one + after);
        lemma_tokens_of_both(one, after);
        assert(one.drop_last() =~= Seq::<ItemView>::empty());
        assert(message_tokens(one) == message_tokens(one.drop_last()) + item_tokens(history[i - 1]));
        let head = history.take(i - 1);
        assert(history =~= head + history.skip(i - 1));
        lemma_tokens_of_both(head, history.skip(i - 1));
        let first = seq![history[0]];
        assert(head =~= first + history.subrange(1, i - 1));
        lemma_tokens_of_both(first, history.subrange(1, i - 1));
        assert(first.drop_last() =~= Seq::<ItemView>::empty());
        assert(message_tokens(first) == message_tokens(first.drop_last()) + item_tokens(history[0]));
        lemma_history_tokens(history.subrange(1, i - 1));
        let more = used + item_tokens(history[i - 1]);
        assert(cap(more) == more);
        if !(more > max && i < history.len()) {
            lemma_tail(history, i - 1, more, max);
        }
    }
}

proof fn lemma_outputs_dropped(items: Seq<ItemView>, k: int)
    requires
        0 <= k <= items.len(),
        without_leading_outputs(items) == items.skip(k),
    ensures
        forall|i: int| 0 <= i < k ==> #[trigger] items[i] is FunctionCallOutput,
    decreases items.len(),
{
    if items.len() > 0 && items[0] is FunctionCallOutput {
        let rest = items.drop_first();
        if k == 0 {
            assert(items.skip(0).len() == items.len());
            lemma_outputs_are_no_longer(rest);
        } else {
            assert(rest.skip(k - 1) =~= items.skip(k));
            lemma_outputs_dropped(rest, k - 1);
            assert forall|i: int| 0 <= i < k implies #[trigger] items[i] is FunctionCallOutput by {
                if i > 0 {
                    assert(rest[i - 1] == items[i]);
                }
            }
        }
    } else {
        assert(items.skip(k).len() == items.len());
    }
}

proof fn lemma_outputs_are_no_longer(items: Seq<ItemView>)
    ensures
        without_leading_outputs(items).len() <= items.len(),
        exists|k: int|
            0 <= k <= items.len() && without_leading_outputs(items) == #[trigger] items.skip(k),
    decreases items.len(),
{
    if items.len() > 0 && items[0] is FunctionCallOutput {
        let rest = items.drop_first();
        lemma_outputs_are_no_longer(rest);
        let k = choose|k: int|
            0 <= k <= rest.len() && without_leading_outputs(rest) == #[trigger] rest.skip(k);
        assert(rest.skip(k) =~= items.skip(k + 1));
    } else {
        assert(items.skip(0) =~= items);
    }
}

/// A history that is too long keeps its first item and as many of its last items as fit, the last one
/// in any case: what is kept fits, and what is left out does not, but for tool outputs that would
/// stand at the head without their calls.
pub proof fn law_trim_keeps_what_fits(history: Seq<ItemView>, max: int)
    requires
        history.len() > 2,
        history_tokens(history) < usize::MAX,
        history_tokens(history) > max,
    ensures
        exists|k: int, from: int|
            #![trigger history.skip(k), history.skip(from)]
            {
                &&& 1 <= k <= from <= history.len()
                &&& k < history.len()
                &&& trimmed_history(history, max) == seq![history[0]] + history.skip(from)
                &&& k < history.len() - 1 ==> history_tokens(seq![history[0]] + history.skip(k))
                    <= max
                &&& k > 1 ==> history_tokens(seq![history[0]] + history.skip(k - 1)) > max
                &&& forall|i: int| k <= i < from ==> #[trigger] history[i] is FunctionCallOutput
            },
        !(history.last() is FunctionCallOutput) ==> trimmed_history(history, max).last()
            == history.last() && trimmed_history(history, max).len() >= 2,
{
    let n = history.len() as int;
    let first = seq![history[0]];
    lemma_history_tokens(history);
    assert(history.skip(n) =~= Seq::<ItemView>::empty());
    assert(first.drop_last() =~= Seq::<ItemView>::empty());
    assert(message_tokens(first) == message_tokens(first.drop_last()) + item_tokens(history[0]));
    lemma_tail(history, n, item_tokens(history[0]), max);
    let k = tail_start(history, n, item_tokens(history[0]), max);
    let tail = history.skip(k);
    lemma_outputs_are_no_longer(tail);
    let j = choose|j: int|
        0 <= j <= tail.len() && without_leading_outputs(tail) == #[trigger] tail.skip(j);
    lemma_outputs_dropped(tail, j);
    let from = k + j;
    assert(tail.skip(j) =~= history.skip(from));
    lemma_tokens_of_both(first, history.skip(k));
    lemma_history_tokens(first + history.skip(k));
    if k > 1 {
        lemma_tokens_of_both(first, history.skip(k - 1));
        lemma_history_tokens(first + history.skip(k - 1));
        assert(history =~= history.take(k - 1) + history.skip(k - 1));
        lemma_tokens_of_both(history.take(k - 1), history.skip(k - 1));
        assert(history.take(k - 1) =~= first + history.subrange(1, k - 1));
        lemma_tokens_of_both(first, history.subrange(1, k - 1));
        lemma_history_tokens(history.subrange(1, k - 1));
    } else {
        assert(history =~= first + history.skip(1));
    }
    assert forall|i: int| k <= i < from implies #[trigger] history[i] is FunctionCallOutput by {
        assert(tail[i - k] == history[i]);
    }
    if !(history.last() is FunctionCallOutput) {
        if from == n {
            assert(history[n - 1] is FunctionCallOutput);
        }
        assert((first + history.skip(from)).last() == history.last());
    }
    assert(1 <= k <= from <= n && history.skip(k) == tail);
}

/// A sample that failed and may succeed is tried again, three times in all: with all that the failed
/// one asked, after a while, and with what it used on the account. A model whose output was cut off,
/// or that gave none, is told so once and thinks less. The Turn itself stays as it was.
pub proof fn law_failed_samples_are_tried_again(
    t: TurnView,
    a: AttemptView,
    outcome: Result<crate::agent::sample::SampledStep, crate::agent::error::AgentError>,
    duration_ms: u64,
)
    requires
        t.phase == PhaseView::Sampling(a),
        sample_fault(outcome_view(outcome)) is Some,
        a.retry < 2,
        (sample_fault(outcome_view(outcome))->0).0.retryable(),
    ensures
        ({
            let (e, used) = sample_fault(outcome_view(outcome))->0;
            let made = advanced(t, TurnInput::Sampled { outcome, duration_ms });
            let again = advanced(made.turn, TurnInput::Waited);
            let old = a.request.input;
            &&& made.next matches NextView::Wait { millis } && millis >= 500
            &&& made.turn.phase matches PhaseView::Waiting(b) && {
                &&& b.retry == a.retry + 1
                &&& b.usage == usage_sum(a.usage, used)
                &&& b.request.input.take(old.len() as int) == old
                &&& b.request.input.len() <= old.len() + 1
                &&& b.request.input.len() == old.len() + 1 <==> (e.output_limit()
                    && !a.told_limit) || (e is EmptyModelResponse && !a.told_empty)
                &&& b.request.input.len() > old.len() ==> (b.request.input.last() matches
                    ItemView::Message { role: MessageRole::User, .. })
                &&& b.told_limit == (a.told_limit || e.output_limit())
                &&& b.told_empty == (a.told_empty || e is EmptyModelResponse)
                &&& e.output_limit() || e is EmptyModelResponse ==> b.request.reasoning_effort
                    == Some(ReasoningEffort::Low)
                &&& !e.output_limit() && !(e is EmptyModelResponse) ==> b.request == a.request
                &&& again.next == (NextView::Sample { request: b.request, tells: true })
                &&& again.turn == (TurnView { phase: PhaseView::Sampling(b), ..t })
            }
            &&& made.turn == (TurnView { phase: made.turn.phase, ..t })
            &&& made.events.len() == 2
            &&& made.events[0] is MessageReset
            &&& made.events[1] matches EventView::SamplingRetry { attempt, error } && attempt
                == a.retry + 1 && error == e.message()
        }),
{
    let (e, used) = sample_fault(outcome_view(outcome))->0;
    let b = crate::agent::transitions::next_attempt(a, e, used);
    assert(b.request.input.take(a.request.input.len() as int) =~= a.request.input);
}

/// Which faults may pass: those of the connection, of the stream and of an overloaded provider, an
/// answer that was cut off, and one that holds nothing.
pub proof fn law_which_faults_may_pass(m: Seq<char>, status: u16, usage: TokenUsage)
    ensures
        AgentErrorView::EmptyModelResponse.retryable(),
        AgentErrorView::IncompleteModelStream.retryable(),
        AgentErrorView::Model(crate::model::error::ModelErrorView::Transport(m)).retryable(),
        AgentErrorView::Model(crate::model::error::ModelErrorView::Stream(m)).retryable(),
        AgentErrorView::Model(
            crate::model::error::ModelErrorView::Http { status, message: m },
        ).retryable() <==> status == 429 || status >= 500,
        AgentErrorView::Model(
            crate::model::error::ModelErrorView::IncompleteResponse { reason: m, usage },
        ).retryable() <==> m == "max_output_tokens"@,
        !AgentErrorView::Model(crate::model::error::ModelErrorView::Configuration(m)).retryable(),
        !AgentErrorView::Model(crate::model::error::ModelErrorView::Provider(m)).retryable(),
        !AgentErrorView::Cancelled.retryable(),
        !AgentErrorView::InvalidToolCallIdentity(m).retryable(),
        !AgentErrorView::Interrupted(m).retryable(),
{
}

/// A sample is refused exactly where it failed or holds neither a message nor a call. What a failed
/// one used is what its error tells.
pub proof fn law_which_samples_are_refused(
    sample: SampleView,
    e: AgentErrorView,
    reason: Seq<char>,
    usage: TokenUsage,
)
    ensures
        sample_fault(Ok(sample)) is None <==> sample.message.len() > 0 || sample.calls.len() > 0,
        sample_fault(Ok(sample)) is Some ==> sample_fault(Ok(sample)) == Some(
            (AgentErrorView::EmptyModelResponse, sample.usage),
        ),
        sample_fault(Err(e)) is Some && (sample_fault(Err(e))->0).0 == e,
        !(e is Model) ==> (sample_fault(Err(e))->0).1 == no_usage(),
        (sample_fault(
            Err(
                AgentErrorView::Model(
                    crate::model::error::ModelErrorView::IncompleteResponse { reason, usage },
                ),
            ),
        )->0).1 == usage,
{
}

proof fn lemma_unreplayed(calls: Seq<CallView>, items: Seq<JsonView>, i: int)
    requires
        0 <= i < calls.len(),
    ensures
        crate::agent::transitions::replays(items, calls[i].call_id) || unreplayed(
            calls,
            items,
        ).contains(
            ItemView::FunctionCall {
                call_id: calls[i].call_id,
                name: calls[i].name,
                arguments: calls[i].arguments,
            },
        ),
        unreplayed(calls, items).len() <= calls.len(),
    decreases calls.len(),
{
    let made = unreplayed(calls, items);
    let before = unreplayed(calls.drop_last(), items);
    if calls.len() > 1 {
        lemma_unreplayed(
            calls.drop_last(),
            items,
            if i < calls.len() - 1 {
                i
            } else {
                0
            },
        );
    } else {
        assert(before.len() == 0);
    }
    let item = ItemView::FunctionCall {
        call_id: calls[i].call_id,
        name: calls[i].name,
        arguments: calls[i].arguments,
    };
    if !crate::agent::transitions::replays(items, calls[i].call_id) {
        if i == calls.len() - 1 {
            assert(made[made.len() - 1] == item);
        } else {
            let k = choose|k: int| 0 <= k < before.len() && before[k] == item;
            assert(made[k] == item);
        }
    }
}

/// Whether a history holds a call behind some of its items.
pub open spec fn call_on_record(history: Seq<ItemView>, from: int, call: CallView) -> bool {
    exists|k: int|
        from <= k < history.len() && (item_call_id(#[trigger] history[k]) == Some(call.call_id)) && (
        history[k] matches ItemView::FunctionCall { name, arguments, .. } ==> name == call.name
            && arguments == call.arguments)
}

/// An answer is kept whole: behind the history stand its items, its message, and every call of it,
/// and nothing is taken away. What it used is on the account together with what failed attempts used.
/// Without a call the Turn ends with the answer's message; with calls, all of them are run.
pub proof fn law_answers_are_kept(
    t: TurnView,
    a: AttemptView,
    sample: crate::agent::sample::SampledStep,
    duration_ms: u64,
)
    requires
        t.phase == PhaseView::Sampling(a),
        sample@.message.len() > 0 || sample@.calls.len() > 0,
        call_ids_fault(sample@.calls, t.used_ids, 0) is None,
    ensures
        ({
            let s = sample@;
            let made = advanced(t, TurnInput::Sampled { outcome: Ok(sample), duration_ms });
            let h = made.turn.history;
            let n = t.history.len() as int;
            &&& h.len() >= n + s.response_items.len()
            &&& forall|i: int| 0 <= i < n ==> #[trigger] h[i] == t.history[i]
            &&& forall|i: int|
                0 <= i < s.response_items.len() ==> h[n + i] == (ItemView::ResponseItem {
                    item: #[trigger] s.response_items[i],
                })
            &&& s.message.len() > 0 && !has_message(s.response_items) ==> h[n
                + s.response_items.len()] == (ItemView::Message {
                role: MessageRole::Assistant,
                content: s.message,
            })
            &&& forall|i: int| 0 <= i < s.calls.len() ==> call_on_record(h, n, #[trigger] s.calls[i])
            &&& made.turn.usage == usage_sum(t.usage, usage_sum(s.usage, a.usage))
            &&& s.calls.len() == 0 ==> made.next == NextView::Done(
                OutcomeView::Finished(
                    crate::agent::request::ResultView {
                        final_message: s.message,
                        history: h,
                        steps: t.step,
                        usage: made.turn.usage,
                    },
                ),
            )
            &&& s.calls.len() > 0 ==> made.next == (NextView::RunTools { calls: s.calls })
                && made.turn.phase == PhaseView::Tools(s.calls)
            &&& forall|i: int|
                0 <= i < s.calls.len() ==> made.turn.used_ids.contains(
                    (#[trigger] s.calls[i]).call_id,
                )
            &&& forall|i: int|
                0 <= i < t.used_ids.len() ==> made.turn.used_ids.contains(#[trigger] t.used_ids[i])
        }),
{
    let s = sample@;
    let made = advanced(t, TurnInput::Sampled { outcome: Ok(sample), duration_ms });
    let h = made.turn.history;
    let n = t.history.len() as int;
    let items = s.response_items;
    let tail = unreplayed(s.calls, items);
    let spoken = h.len() - tail.len();
    assert forall|i: int| 0 <= i < s.calls.len() implies call_on_record(h, n, #[trigger] s.calls[i]) by {
        let call = s.calls[i];
        lemma_unreplayed(s.calls, items, i);
        if crate::agent::transitions::replays(items, call.call_id) {
            let k = choose|k: int|
                0 <= k < items.len() && text_field(#[trigger] items[k], "type"@) == Some(
                    "function_call"@,
                ) && text_field(items[k], "call_id"@) == Some(call.call_id);
            assert(h[n + k] == (ItemView::ResponseItem { item: items[k] }));
            assert(item_call_id(h[n + k]) == Some(call.call_id));
        } else {
            let item = ItemView::FunctionCall {
                call_id: call.call_id,
                name: call.name,
                arguments: call.arguments,
            };
            let k = choose|k: int| 0 <= k < tail.len() && tail[k] == item;
            assert(h[spoken + k] == item);
            assert(item_call_id(h[spoken + k]) == Some(call.call_id));
        }
    }
    assert forall|i: int| 0 <= i < s.calls.len() implies made.turn.used_ids.contains(
        (#[trigger] s.calls[i]).call_id,
    ) by {
        assert(made.turn.used_ids[t.used_ids.len() + i] == s.calls[i].call_id);
    }
    assert forall|i: int| 0 <= i < t.used_ids.len() implies made.turn.used_ids.contains(
        #[trigger] t.used_ids[i],
    ) by {
        assert(made.turn.used_ids[i] == t.used_ids[i]);
    }
}

/// What is told of an answer: its message where it has one, the step with what it used, and the
/// history that holds it, before any of its calls; then each call, and that it is run.
pub proof fn law_answers_are_told(
    t: TurnView,
    a: AttemptView,
    sample: crate::agent::sample::SampledStep,
    duration_ms: u64,
)
    requires
        t.phase == PhaseView::Sampling(a),
        sample@.message.len() > 0 || sample@.calls.len() > 0,
        call_ids_fault(sample@.calls, t.used_ids, 0) is None,
    ensures
        ({
            let s = sample@;
            let made = advanced(t, TurnInput::Sampled { outcome: Ok(sample), duration_ms });
            let at = search_events(s.response_items).len() as int;
            let said: int = if s.message.len() > 0 {
                1
            } else {
                0
            };
            let calls = s.calls.len() as int;
            &&& made.events.len() == at + 1 + said + 1 + 2 * calls
            &&& made.events[at] matches EventView::ModelStepCompleted {
                step,
                usage,
                duration_ms: took,
                ..
            } && step == t.step && usage == usage_sum(s.usage, a.usage) && took == duration_ms
            &&& s.message.len() > 0 ==> made.events[at + 1] == (EventView::MessageCompleted {
                message: s.message,
            })
            &&& made.events[at + 1 + said] matches EventView::HistoryCheckpoint {
                history,
                usage,
                completed_model_steps,
                hosted_search_calls_used,
                message,
            } && history == made.turn.history && usage == made.turn.usage && completed_model_steps
                == t.step && hosted_search_calls_used == made.turn.searches && message == (
            if calls == 0 {
                Some(s.message)
            } else {
                None
            })
            &&& forall|i: int|
                0 <= i < calls ==> made.events[at + said + 2 + i] == (EventView::ToolCallStarted {
                    call: #[trigger] s.calls[i],
                })
            &&& forall|i: int|
                0 <= i < calls ==> made.events[at + said + 2 + calls + i] == (
                EventView::ToolExecutionStarted { call_id: (#[trigger] s.calls[i]).call_id })
        }),
{
}

proof fn lemma_searches(items: Seq<JsonView>)
    ensures
        search_events(items).len() == search_count(items),
        search_count(items) == items.filter(
            |i: JsonView| text_field(i, "type"@) == Some("web_search_call"@),
        ).len(),
    decreases items.len(),
{
    reveal(Seq::filter);
    if items.len() > 0 {
        lemma_searches(items.drop_last());
    }
}

/// Every hosted web search of an answer is counted and told.
pub proof fn law_searches_are_counted(
    t: TurnView,
    a: AttemptView,
    sample: crate::agent::sample::SampledStep,
    duration_ms: u64,
)
    requires
        t.phase == PhaseView::Sampling(a),
        sample@.message.len() > 0 || sample@.calls.len() > 0,
        call_ids_fault(sample@.calls, t.used_ids, 0) is None,
    ensures
        ({
            let items = sample@.response_items;
            let made = advanced(t, TurnInput::Sampled { outcome: Ok(sample), duration_ms });
            let found = items.filter(
                |i: JsonView| text_field(i, "type"@) == Some("web_search_call"@),
            );
            &&& t.searches + found.len() <= u32::MAX ==> made.turn.searches == t.searches
                + found.len()
            &&& forall|k: int|
                0 <= k < found.len() ==> (#[trigger] made.events[k] matches
                    EventView::HostedToolCompleted { tool_name, output, .. } && tool_name
                    == "web_search"@ && output == found[k])
        }),
{
    let items = sample@.response_items;
    lemma_searches(items);
    lemma_search_outputs(items);
    let made = advanced(t, TurnInput::Sampled { outcome: Ok(sample), duration_ms });
    let found = items.filter(|i: JsonView| text_field(i, "type"@) == Some("web_search_call"@));
    assert forall|k: int| 0 <= k < found.len() implies (#[trigger] made.events[k] matches
        EventView::HostedToolCompleted { tool_name, output, .. } && tool_name == "web_search"@
        && output == found[k]) by {
        assert(made.events[k] == search_events(items)[k]);
    }
}

proof fn lemma_search_outputs(items: Seq<JsonView>)
    ensures
        ({
            let found = items.filter(
                |i: JsonView| text_field(i, "type"@) == Some("web_search_call"@),
            );
            &&& search_events(items).len() == found.len()
            &&& forall|k: int|
                0 <= k < found.len() ==> (#[trigger] search_events(items)[k] matches
                    EventView::HostedToolCompleted { tool_name, output, .. } && tool_name
                    == "web_search"@ && output == found[k])
        }),
    decreases items.len(),
{
    reveal(Seq::filter);
    if items.len() > 0 {
        lemma_search_outputs(items.drop_last());
    }
}

proof fn lemma_call_ids(calls: Seq<CallView>, used: Seq<Seq<char>>, from: int)
    requires
        0 <= from <= calls.len(),
    ensures
        call_ids_fault(calls, used, from) is None <==> forall|i: int|
            from <= i < calls.len() ==> call_id_fault(calls, used, #[trigger] id_at(i)) is None,
    decreases calls.len() - from,
{
    if from < calls.len() {
        lemma_call_ids(calls, used, from + 1);
        assert(id_at(from) == from);
        if call_ids_fault(calls, used, from) is None {
            assert forall|i: int| from <= i < calls.len() implies call_id_fault(
                calls,
                used,
                #[trigger] id_at(i),
            ) is None by {
                if i > from {
                    assert(call_id_fault(calls, used, id_at(i)) is None);
                }
            }
        }
    }
}

spec fn id_at(i: int) -> int {
    i
}

/// Whether the identifiers of some calls are fit: none is blank or longer than 512 bytes, none occurs
/// twice, and none was used before.
pub open spec fn ids_are_fit(calls: Seq<CallView>, used: Seq<Seq<char>>) -> bool {
    &&& forall|i: int|
        0 <= i < calls.len() ==> trimmed((#[trigger] calls[i]).call_id).len() > 0 && encode_utf8(
            calls[i].call_id,
        ).len() <= 512 && !used.contains(calls[i].call_id)
    &&& forall|i: int, j: int|
        0 <= i < j < calls.len() ==> (#[trigger] calls[i]).call_id != (#[trigger] calls[j]).call_id
}

/// Calls are accepted exactly where their identifiers are fit.
pub proof fn law_fit_calls_are_accepted(calls: Seq<CallView>, used: Seq<Seq<char>>)
    ensures
        call_ids_fault(calls, used, 0) is None <==> ids_are_fit(calls, used),
{
    lemma_call_ids(calls, used, 0);
    if call_ids_fault(calls, used, 0) is None {
        assert forall|i: int| 0 <= i < calls.len() implies trimmed(
            (#[trigger] calls[i]).call_id,
        ).len() > 0 && encode_utf8(calls[i].call_id).len() <= 512 && !used.contains(
            calls[i].call_id,
        ) by {
            assert(call_id_fault(calls, used, id_at(i)) is None);
        }
        assert forall|i: int, j: int| 0 <= i < j < calls.len() implies (#[trigger] calls[i]).call_id
            != (#[trigger] calls[j]).call_id by {
            assert(call_id_fault(calls, used, id_at(j)) is None);
        }
    }
}

/// An answer whose calls have unfit identifiers ends the Turn before any tool runs and leaves the
/// history as it was, but is paid for.
pub proof fn law_unfit_calls_end_the_turn(
    t: TurnView,
    a: AttemptView,
    sample: crate::agent::sample::SampledStep,
    duration_ms: u64,
)
    requires
        t.phase == PhaseView::Sampling(a),
        sample@.message.len() > 0 || sample@.calls.len() > 0,
        !ids_are_fit(sample@.calls, t.used_ids),
    ensures
        ({
            let made = advanced(t, TurnInput::Sampled { outcome: Ok(sample), duration_ms });
            &&& made.next matches NextView::Done(
                OutcomeView::Failed(AgentErrorView::InvalidToolCallIdentity(_)),
            )
            &&& made.turn.history == t.history
            &&& made.turn.used_ids == t.used_ids
            &&& made.turn.usage == usage_sum(t.usage, usage_sum(sample@.usage, a.usage))
            &&& forall|i: int|
                0 <= i < made.events.len() ==> (#[trigger] made.events[i]) is ModelStepFailed
        }),
{
    law_fit_calls_are_accepted(sample@.calls, t.used_ids);
}

proof fn lemma_history_call_ids(history: Seq<ItemView>, i: int)
    requires
        0 <= i < history.len(),
        item_call_id(history[i]) is Some,
    ensures
        history_call_ids(history).contains(item_call_id(history[i])->0),
    decreases history.len(),
{
    let all = history_call_ids(history);
    let before = history_call_ids(history.drop_last());
    let id = item_call_id(history[i])->0;
    if i == history.len() - 1 {
        assert(all[all.len() - 1] == id);
    } else {
        lemma_history_call_ids(history.drop_last(), i);
        let k = choose|k: int| 0 <= k < before.len() && before[k] == id;
        assert(all[k] == id);
    }
}

/// A Turn that starts with a history counts every call and every output in it as used, so that no
/// call is made or answered twice.
pub proof fn law_earlier_calls_count(
    request: AgentTurnRequest,
    tools: Seq<ToolView>,
    i: int,
    call_id: Seq<char>,
)
    requires
        0 <= i < request.initial_history@.len(),
        ({
            let item = request.initial_history@[i]@;
            ||| item matches ItemView::FunctionCall { call_id: id, .. } && id == call_id
            ||| item matches ItemView::FunctionCallOutput { call_id: id, .. } && id == call_id
            ||| item matches ItemView::ResponseItem { item } && text_field(item, "type"@) == Some(
                "function_call"@,
            ) && text_field(item, "call_id"@) == Some(call_id)
        }),
    ensures
        started(request, tools).turn.used_ids.contains(call_id),
{
    let h = started(request, tools).turn.history;
    assert(h[i] == item_views(request.initial_history@)[i]);
    lemma_history_call_ids(h, i);
}

/// Whether an item is a user's message.
pub open spec fn is_user(item: ItemView) -> bool {
    item matches ItemView::Message { role: MessageRole::User, .. }
}

/// The user's messages of a history, in order.
pub open spec fn user_messages(history: Seq<ItemView>) -> Seq<ItemView> {
    history.filter(|i: ItemView| is_user(i))
}

proof fn lemma_kept_when_they_fit(history: Seq<ItemView>, i: int, used: int, budget: int, some: bool)
    requires
        0 <= i <= history.len(),
        0 <= used,
        0 <= budget < usize::MAX,
        used + message_tokens(user_messages(history.take(i))) <= budget,
    ensures
        kept_messages(history, i, used, budget, some) == user_messages(history.take(i)),
    decreases i,
{
    reveal(Seq::filter);
    let users = user_messages(history.take(i));
    if i == 0 {
        assert(users =~= Seq::<ItemView>::empty());
    } else {
        let rest = history.take(i - 1);
        let fewer = user_messages(rest);
        assert(history.take(i).drop_last() =~= rest);
        assert(history.take(i).last() == history[i - 1]);
        lemma_history_tokens(fewer);
        match history[i - 1] {
            ItemView::Message { role: MessageRole::User, content } => {
                assert(users == fewer.push(history[i - 1]));
                assert(users.drop_last() =~= fewer);
                lemma_text_tokens(content);
                let size = cap(text_tokens(content) + 8);
                assert(size == item_tokens(history[i - 1]));
                lemma_kept_when_they_fit(history, i - 1, cap(used + size), budget, true);
            },
            _ => {
                lemma_kept_when_they_fit(history, i - 1, used, budget, some);
            },
        }
    }
}

proof fn lemma_last_message_is_kept(history: Seq<ItemView>, i: int, last: int, budget: int)
    requires
        0 <= last < i <= history.len(),
        0 <= budget < usize::MAX,
        is_user(history[last]),
        item_tokens(history[last]) <= budget,
        forall|k: int| last < k < i ==> !is_user(#[trigger] history[k]),
    ensures
        kept_messages(history, i, 0, budget, false).len() > 0,
        kept_messages(history, i, 0, budget, false).last() == history[last],
    decreases i,
{
    if last < i - 1 {
        assert(!is_user(history[i - 1]));
        lemma_last_message_is_kept(history, i - 1, last, budget);
    } else {
        lemma_item_tokens(history[last]);
    }
}

/// Compaction keeps what a person said: all of the user's messages, in order, where they fit in what
/// is set aside for them, and the last one where it alone does. The summary stands behind them.
pub proof fn law_compaction_keeps_what_was_said(
    history: Seq<ItemView>,
    summary: Seq<char>,
    budget: int,
    last: int,
)
    requires
        0 <= budget < usize::MAX,
    ensures
        ({
            let made = crate::agent::history::compacted_history(history, summary, budget);
            &&& made.len() > 0
            &&& made.last() matches ItemView::Message { role: MessageRole::User, content }
                && ends_with(content, summary)
            &&& history_tokens(user_messages(history)) <= budget ==> made.drop_last()
                == user_messages(history)
            &&& 0 <= last < history.len() && is_user(history[last]) && item_tokens(history[last])
                <= budget && (forall|k: int|
                last < k < history.len() ==> !is_user(#[trigger] history[k])) ==> made.len() > 1
                && made[made.len() - 2] == history[last]
        }),
{
    let n = history.len() as int;
    let made = crate::agent::history::compacted_history(history, summary, budget);
    let start = crate::agent::history::summary_prefix() + "\n\n"@;
    let content = start + summary;
    assert(content.subrange(start.len() as int, content.len() as int) =~= summary);
    assert(history.take(n) =~= history);
    lemma_history_tokens(user_messages(history));
    let kept = kept_messages(history, n, 0, budget, false);
    assert(made.drop_last() =~= kept);
    if history_tokens(user_messages(history)) <= budget {
        lemma_kept_when_they_fit(history, n, 0, budget, false);
    }
    if 0 <= last < history.len() && is_user(history[last]) && item_tokens(history[last]) <= budget
        && (forall|k: int| last < k < history.len() ==> !is_user(#[trigger] history[k])) {
        lemma_last_message_is_kept(history, n, last, budget);
    }
}

proof fn lemma_settled_keeps_the_last(t: TurnView)
    requires
        t.history.len() > 0,
        !(asked_history(t).last() is FunctionCallOutput),
        history_tokens(asked_history(t)) < usize::MAX,
    ensures
        settled_history(t).len() > 0,
        settled_history(t).last() == asked_history(t).last(),
{
    let h = asked_history(t);
    if history_tokens(h) > t.budget && h.len() > 2 {
        law_trim_keeps_what_fits(h, t.budget);
    }
}

/// A summary that the model gave takes the place of the history: the model is asked again with it at
/// the end, and it is paid for. A blank summary ends the Turn, and so does one that failed.
pub proof fn law_summaries_are_used(
    t: TurnView,
    before_tokens: int,
    before_items: int,
    sample: crate::agent::sample::SampledStep,
    duration_ms: u64,
)
    requires
        t.phase == (PhaseView::Compacting { before_tokens, before_items }),
        !t.forced,
        0 <= t.budget < usize::MAX,
    ensures
        ({
            let made = advanced(t, TurnInput::Sampled { outcome: Ok(sample), duration_ms });
            let summary = trimmed(sample@.message);
            &&& summary.len() == 0 ==> made.next == NextView::Done(
                OutcomeView::Failed(AgentErrorView::EmptyModelResponse),
            )
            &&& made.next matches NextView::Sample { request, tells } ==> {
                &&& tells
                &&& summary.len() > 0
                &&& request.input.len() > 0
                &&& request.input.last() matches ItemView::Message {
                    role: MessageRole::User,
                    content,
                } && ends_with(content, summary)
                &&& forall|k: int|
                    0 <= k < request.input.len() - 1 ==> is_user(#[trigger] request.input[k])
                        && t.history.contains(request.input[k])
                &&& made.turn.usage == usage_sum(t.usage, sample@.usage)
            }
            &&& summary.len() > 0 ==> made.events.len() > 0 && (made.events[0] matches
                EventView::ContextCompactionCompleted { summary: told, usage, .. } && told == summary
                && usage == sample@.usage)
        }),
{
    let made = advanced(t, TurnInput::Sampled { outcome: Ok(sample), duration_ms });
    let summary = trimmed(sample@.message);
    let room = if t.budget / 3 < 20_000 {
        t.budget / 3
    } else {
        20_000
    };
    if summary.len() > 0 {
        let compacted = TurnView {
            history: crate::agent::history::compacted_history(t.history, summary, room),
            usage: usage_sum(t.usage, sample@.usage),
            ..t
        };
        law_compaction_keeps_what_was_said(t.history, summary, room, -1);
        crate::agent::history::law_compaction_keeps_user_messages(t.history, summary, room);
        let h = compacted.history;
        lemma_history_tokens(h);
        crate::agent::history::law_trim_keeps_the_objective(h, t.budget);
        if made.next is Sample {
            let s = settled_history(compacted);
            if history_tokens(h) <= t.budget || h.len() <= 2 {
                assert(s == h);
            } else if history_tokens(h) < usize::MAX {
                lemma_settled_keeps_the_last(compacted);
            } else {
                lemma_trim_of_the_longest(h, t.budget);
            }
            let k = choose|k: int|
                1 <= k <= h.len() && s == seq![h[0]] + #[trigger] h.skip(k);
            assert forall|i: int| 0 <= i < s.len() - 1 implies is_user(#[trigger] s[i])
                && t.history.contains(s[i]) by {
                let kept = h.drop_last();
                if i == 0 {
                    assert(h.len() > 1);
                    assert(s[0] == kept[0]);
                } else {
                    assert(s[i] == h[k + i - 1]);
                    assert(s.len() == 1 + h.len() - k);
                    assert(s[i] == kept[k + i - 1]);
                }
            }
        }
    }
}

proof fn lemma_trim_of_the_longest(h: Seq<ItemView>, max: int)
    requires
        h.len() > 2,
        max < usize::MAX,
        !(h.last() is FunctionCallOutput),
    ensures
        trimmed_history(h, max).len() > 0,
        trimmed_history(h, max).last() == h.last(),
{
    if history_tokens(h) > max {
        let n = h.len() as int;
        let first = item_tokens(h[0]);
        lemma_tail_below(h, n, first, max);
        let k = tail_start(h, n, first, max);
        let tail = h.skip(k);
        lemma_outputs_are_no_longer(tail);
        let j = choose|j: int|
            0 <= j <= tail.len() && without_leading_outputs(tail) == #[trigger] tail.skip(j);
        lemma_outputs_dropped(tail, j);
        if j == tail.len() {
            assert(tail[j - 1] is FunctionCallOutput);
            assert(tail[j - 1] == h.last());
        }
        assert((seq![h[0]] + tail.skip(j)).last() == h.last());
    }
}

proof fn lemma_tail_below(history: Seq<ItemView>, i: int, used: int, max: int)
    requires
        history.len() > 1,
        1 <= i <= history.len(),
    ensures
        1 <= tail_start(history, i, used, max) <= i,
        i == history.len() ==> tail_start(history, i, used, max) < history.len(),
    decreases i,
{
    if i > 1 {
        lemma_tail_below(history, i - 1, cap(used + item_tokens(history[i - 1])), max);
    }
}

/// A step that is to be the last asks for the last message: the prompt for it stands at the end of
/// what the model is shown.
pub proof fn law_the_last_step_asks_to_finish(t: TurnView, events: Seq<EventView>)
    requires
        t.forced,
        0 <= t.budget < usize::MAX,
    ensures
        sampling(t, events).next matches NextView::Sample { request, .. } ==> request.input.len() > 0
            && user_says(request.input.last(), finish_prompt()),
{
    let h = asked_history(t);
    if history_tokens(h) > t.budget && h.len() > 2 {
        lemma_trim_of_the_longest(h, t.budget);
    }
}

/// Before a step is sampled the history that the model is shown is on record, with the account of the
/// Turn, and the step is told.
pub proof fn law_samples_are_recorded_first(t: TurnView, events: Seq<EventView>)
    requires
        t.step > 0,
    ensures
        ({
            let made = sampling(t, events);
            let n = made.events.len() as int;
            made.next matches NextView::Sample { request, .. } ==> {
                &&& n >= events.len() + 2
                &&& made.events.take(events.len() as int) == events
                &&& made.events[n - 2] == (EventView::HistoryCheckpoint {
                    history: request.input,
                    usage: t.usage,
                    completed_model_steps: (t.step - 1) as u32,
                    hosted_search_calls_used: t.searches,
                    message: None,
                })
                &&& made.events[n - 1] matches EventView::ModelStepStarted { step, .. } && step
                    == t.step
                &&& made.turn == (TurnView {
                    history: request.input,
                    phase: made.turn.phase,
                    ..t
                })
                &&& made.turn.phase matches PhaseView::Sampling(a) && a.retry == 0 && a.usage
                    == no_usage() && !a.told_limit && !a.told_empty
            }
        }),
{
    let made = sampling(t, events);
    assert(made.events.take(events.len() as int) =~= events);
}

/// A Turn whose history cannot be brought into the budget ends, and one whose history fits does not.
pub proof fn law_fitting_histories_are_sampled(t: TurnView, events: Seq<EventView>)
    ensures
        history_tokens(asked_history(t)) <= t.budget ==> sampling(t, events).next is Sample,
        sampling(t, events).next is Sample || (sampling(t, events).next matches NextView::Done(
            OutcomeView::Failed(AgentErrorView::ContextWindowExceeded { .. }),
        )),
{
}

/// Every event of an answer is taken in: text is added to the message, an item to the items, with the
/// call that it makes to the calls, and the end brings the usage. Nothing that came before is lost.
pub proof fn law_events_are_taken_in(
    s: SamplingView,
    delta: Seq<char>,
    item: JsonView,
    call: CallView,
    usage: TokenUsage,
)
    ensures
        received(s, ModelEventView::OutputTextDelta(delta)) matches Ok((next, _)) && next
            == (SamplingView { message: s.message + delta, pending: next.pending, ..s }),
        received(s, ModelEventView::ToolCallCompleted(call)) == Ok::<_, AgentErrorView>(
            (SamplingView { calls: s.calls.push(call), ..s }, None::<Seq<char>>),
        ),
        received(s, ModelEventView::Completed(usage)) == Ok::<_, AgentErrorView>(
            (SamplingView { usage, completed: true, ..s }, None::<Seq<char>>),
        ),
        received(s, ModelEventView::ResponseItemCompleted(item)) matches Ok((next, told)) ==> {
            &&& told is None
            &&& next.response_items == s.response_items.push(item)
            &&& next.message == s.message
            &&& next.usage == s.usage
            &&& next.completed == s.completed
            &&& text_field(item, "type"@) != Some("function_call"@) ==> next.calls == s.calls
            &&& text_field(item, "type"@) == Some("function_call"@) ==> next.calls.len()
                == s.calls.len() + 1 && next.calls.take(s.calls.len() as int) == s.calls
                && text_field(item, "call_id"@) == Some(next.calls.last().call_id) && text_field(
                item,
                "name"@,
            ) == Some(next.calls.last().name) && text_field(item, "arguments"@) == Some(
                next.calls.last().arguments,
            )
        },
        received(s, ModelEventView::ResponseItemCompleted(item)) is Err <==> text_field(
            item,
            "type"@,
        ) == Some("function_call"@) && (text_field(item, "call_id"@) is None || text_field(
            item,
            "name"@,
        ) is None || text_field(item, "arguments"@) is None),
{
    if let Ok((next, _)) = received(s, ModelEventView::ResponseItemCompleted(item)) {
        if next.calls.len() > s.calls.len() {
            assert(next.calls.take(s.calls.len() as int) =~= s.calls);
        }
    }
}

} // verus!
