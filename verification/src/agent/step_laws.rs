//! What is told of a step: before the model is asked, while its history is cut, and after its tools ran.

use crate::agent::error::AgentErrorView;
use crate::agent::history::{history_tokens, law_trim_keeps_the_objective, less};
use crate::agent::request::{EventView, OutcomeView};
use crate::agent::sample::SampledStep;
use crate::agent::transitions::{
    advanced, asked_history, law_every_call_is_answered, output_events, run_views, sampling,
    settled_history, step_input, step_request, with_outputs, NextView, PhaseView, ToolRun, TurnInput,
    TurnView,
};
use crate::json::{field, items_field, text_field, JsonView};
use crate::model::laws::lemma_lookup_at;
use crate::protocol::ids::id_text;
use crate::protocol::model::{CallView, ItemView};
use vstd::prelude::*;

verus! {

/// What is told of a step is what the request of that step asks for: every tool that is offered and none
/// other, how the model may choose, how large the history is and what may be spent on it, what was
/// searched for so far, under which authorization, and whether it is the last.
#[verifier::rlimit(60)]
pub proof fn law_steps_are_told_as_they_are_asked(t: TurnView, i: int)
    ensures
        ({
            let told = step_input(t);
            let asked = step_request(t);
            &&& text_field(told, "model"@) == Some(asked.model)
            &&& text_field(told, "access"@) == Some(
                t.request.environment.authorization.preset.name(),
            )
            &&& text_field(told, "authorization_sha256"@) == Some(
                t.request.environment.authorization_sha256@,
            )
            &&& (items_field(told, "available_tools"@)->0).len() == asked.tools.len()
            &&& 0 <= i < asked.tools.len() ==> (items_field(told, "available_tools"@)->0)[i]
                == JsonView::Text(asked.tools[i].name)
            &&& (items_field(told, "available_hosted_tools"@)->0).len() == asked.hosted_tools.len()
            &&& 0 <= i < asked.hosted_tools.len() ==> (items_field(told, "available_hosted_tools"@)->0)[i]
                == JsonView::Text(asked.hosted_tools[i].text())
            &&& field(told, "control_forced_final"@) == Some(JsonView::Bool(t.forced))
            &&& field(told, "final_sample"@) == Some(JsonView::Bool(t.forced))
            &&& items_field(told, "available_tools"@) is Some
            &&& items_field(told, "available_hosted_tools"@) is Some
            &&& t.forced ==> asked.tools.len() == 0 && asked.hosted_tools.len() == 0
            &&& field(told, "estimated_history_tokens"@) == Some(
                JsonView::Integer(history_tokens(asked.input)),
            )
            &&& field(told, "history_items"@) == Some(JsonView::Integer(asked.input.len() as int))
            &&& field(told, "history_budget_tokens"@) == Some(JsonView::Integer(t.budget))
            &&& field(told, "hosted_search_calls_used"@) == Some(
                JsonView::Integer(t.searches as int),
            )
            &&& asked.prompt_cache matches Some((key, strategy)) && text_field(
                told,
                "prompt_cache_key"@,
            ) == Some(key) && text_field(told, "prompt_cache_strategy"@) == Some(strategy.text())
            &&& asked.transport_session_key == Some(id_text(t.request.agent_id.0))
            &&& text_field(told, "transport_session_key"@) == asked.transport_session_key
            &&& text_field(told, "tool_choice"@) == Some(asked.tool_choice.text())
            &&& text_field(told, "reasoning_effort"@) == (match asked.reasoning_effort {
                Some(effort) => Some(effort.text()),
                None => None,
            })
            &&& text_field(told, "web_search_context_size"@) == (
            match asked.web_search_context_size {
                Some(size) => Some(size.text()),
                None => None,
            })
            &&& field(told, "tools_enabled"@) == Some(JsonView::Bool(t.request.tools_enabled))
            &&& text_field(told, "transport_preference"@) == Some("responses_websocket"@)
        }),
{
    reveal_strlit("authorization_sha256");
    reveal_strlit("access");
    reveal_strlit("available_hosted_tools");
    reveal_strlit("available_tools");
    reveal_strlit("control_forced_final");
    reveal_strlit("estimated_history_tokens");
    reveal_strlit("final_sample");
    reveal_strlit("history_budget_tokens");
    reveal_strlit("history_items");
    reveal_strlit("hosted_search_calls_used");
    reveal_strlit("model");
    reveal_strlit("prompt_cache_key");
    reveal_strlit("prompt_cache_strategy");
    reveal_strlit("reasoning_effort");
    reveal_strlit("tool_choice");
    reveal_strlit("tools_enabled");
    reveal_strlit("transport_preference");
    reveal_strlit("transport_session_key");
    reveal_strlit("web_search_context_size");
    assert("authorization_sha256"@.len() == 20);
    assert("access"@.len() == 6);
    assert("available_hosted_tools"@.len() == 22);
    assert("available_tools"@.len() == 15);
    assert("control_forced_final"@.len() == 20);
    assert("estimated_history_tokens"@.len() == 24);
    assert("final_sample"@.len() == 12);
    assert("history_budget_tokens"@.len() == 21);
    assert("history_items"@.len() == 13);
    assert("hosted_search_calls_used"@.len() == 24);
    assert("model"@.len() == 5);
    assert("prompt_cache_key"@.len() == 16);
    assert("prompt_cache_strategy"@.len() == 21);
    assert("reasoning_effort"@.len() == 16);
    assert("tool_choice"@.len() == 11);
    assert("tools_enabled"@.len() == 13);
    assert("transport_preference"@.len() == 20);
    assert("transport_session_key"@.len() == 21);
    assert("web_search_context_size"@.len() == 23);
    assert("control_forced_final"@[0] != "authorization_sha256"@[0]);
    assert("hosted_search_calls_used"@[0] != "estimated_history_tokens"@[0]);
    assert("prompt_cache_strategy"@[0] != "history_budget_tokens"@[0]);
    assert("reasoning_effort"@[0] != "prompt_cache_key"@[0]);
    assert("tools_enabled"@[0] != "history_items"@[0]);
    assert("transport_preference"@[0] != "authorization_sha256"@[0]);
    assert("transport_preference"@[0] != "control_forced_final"@[0]);
    assert("transport_session_key"@[0] != "history_budget_tokens"@[0]);
    assert("transport_session_key"@[0] != "prompt_cache_strategy"@[0]);
    let made = step_input(t)->Object_0;
    lemma_lookup_at(made, "access"@, 0);
    lemma_lookup_at(made, "authorization_sha256"@, 1);
    lemma_lookup_at(made, "available_hosted_tools"@, 2);
    lemma_lookup_at(made, "available_tools"@, 3);
    lemma_lookup_at(made, "control_forced_final"@, 4);
    lemma_lookup_at(made, "estimated_history_tokens"@, 5);
    lemma_lookup_at(made, "final_sample"@, 6);
    lemma_lookup_at(made, "history_budget_tokens"@, 7);
    lemma_lookup_at(made, "history_items"@, 8);
    lemma_lookup_at(made, "hosted_search_calls_used"@, 9);
    lemma_lookup_at(made, "model"@, 10);
    lemma_lookup_at(made, "prompt_cache_key"@, 11);
    lemma_lookup_at(made, "prompt_cache_strategy"@, 12);
    lemma_lookup_at(made, "reasoning_effort"@, 13);
    lemma_lookup_at(made, "tool_choice"@, 14);
    lemma_lookup_at(made, "tools_enabled"@, 15);
    lemma_lookup_at(made, "transport_preference"@, 16);
    lemma_lookup_at(made, "transport_session_key"@, 17);
    lemma_lookup_at(made, "web_search_context_size"@, 18);
}

/// What the tools returned stands behind the history, one output for every call, in the order of the
/// calls and under their identifiers. Each is on record, with the account of the Turn, before it is told,
/// and is told as it came. The next step begins then.
pub proof fn law_tools_answer_their_calls(
    t: TurnView,
    calls: Seq<CallView>,
    runs: Vec<ToolRun>,
    i: int,
)
    requires
        t.phase == PhaseView::Tools(calls),
        runs@.len() == calls.len(),
        0 <= i < calls.len(),
    ensures
        ({
            let made = advanced(t, TurnInput::ToolsRan(runs));
            let n = t.history.len() as int;
            &&& made.turn.history.len() == n + calls.len()
            &&& made.turn.history.take(n) == t.history
            &&& made.turn.history[n + i] == (ItemView::FunctionCallOutput {
                call_id: calls[i].call_id,
                output: runs@[i].output@,
            })
            &&& made.events.len() == 2 * calls.len()
            &&& made.events[2 * i] == (EventView::HistoryCheckpoint {
                history: made.turn.history.take(n + i + 1),
                usage: t.usage,
                completed_model_steps: t.step,
                hosted_search_calls_used: t.searches,
                message: None,
            })
            &&& made.events[2 * i + 1] == (EventView::ToolCallCompleted {
                call_id: calls[i].call_id,
                tool_name: calls[i].name,
                output: runs@[i].output@,
                duration_ms: runs@[i].duration_ms,
                success: runs@[i].success,
            })
            &&& t.step < u32::MAX ==> made.next is Control && made.turn == (TurnView {
                history: made.turn.history,
                step: (t.step + 1) as u32,
                phase: PhaseView::Control,
                ..t
            })
            &&& t.step == u32::MAX ==> made.next == NextView::Done(
                OutcomeView::Failed(AgentErrorView::StepCounterOverflow),
            )
        }),
{
    let views = run_views(runs@);
    let made = advanced(t, TurnInput::ToolsRan(runs));
    let n = t.history.len() as int;
    assert(views[i] == runs@[i]@);
    law_every_call_is_answered(t, calls, views, i);
    lemma_outputs_are_told(t, calls, views, calls.len(), i);
    assert(with_outputs(t.history, calls, views, (i + 1) as nat) =~= made.turn.history.take(
        n + i + 1,
    ));
}

proof fn lemma_outputs_are_told(
    t: TurnView,
    calls: Seq<CallView>,
    runs: Seq<crate::agent::transitions::RunView>,
    n: nat,
    i: int,
)
    requires
        0 <= i < n,
    ensures
        ({
            let told = output_events(t.history, t.usage, t.searches, t.step, calls, runs, n);
            &&& told.len() == 2 * n
            &&& told[2 * i] == (EventView::HistoryCheckpoint {
                history: with_outputs(t.history, calls, runs, (i + 1) as nat),
                usage: t.usage,
                completed_model_steps: t.step,
                hosted_search_calls_used: t.searches,
                message: None,
            })
            &&& told[2 * i + 1] == (EventView::ToolCallCompleted {
                call_id: calls[i].call_id,
                tool_name: calls[i].name,
                output: runs[i].output,
                duration_ms: runs[i].duration_ms,
                success: runs[i].success,
            })
        }),
    decreases n,
{
    let m = (n - 1) as nat;
    let before = output_events(t.history, t.usage, t.searches, t.step, calls, runs, m);
    if m == 0 {
        assert(before.len() == 0);
    } else {
        let k = if i < m {
            i
        } else {
            0
        };
        lemma_outputs_are_told(t, calls, runs, m, k);
    }
}

proof fn lemma_settled_is_part(t: TurnView)
    ensures
        settled_history(t).len() <= asked_history(t).len(),
        settled_history(t).len() == asked_history(t).len() ==> settled_history(t)
            == asked_history(t),
{
    let h = asked_history(t);
    let s = settled_history(t);
    if h.len() > 0 {
        law_trim_keeps_the_objective(h, t.budget);
    }
    if s != h && h.len() > 0 {
        let k = choose|k: int| 1 <= k <= h.len() && s == seq![h[0]] + #[trigger] h.skip(k);
        if k == 1 {
            assert(s =~= h);
        }
    }
}

/// What had to leave the history is told before the step is, and told only then: as many items as the
/// model is shown fewer of. What is told of the step is of the history that is shown.
pub proof fn law_what_leaves_is_told(t: TurnView, events: Seq<EventView>)
    ensures
        ({
            let made = sampling(t, events);
            let n = events.len() as int;
            made.next matches NextView::Sample { request, .. } ==> {
                let gone = asked_history(t).len() - request.input.len();
                &&& gone >= 0
                &&& gone == 0 ==> made.events.len() == n + 2 && request.input == asked_history(t)
                &&& gone > 0 ==> made.events.len() == n + 3 && made.events[n]
                    == (EventView::ContextTrimmed { removed_items: gone })
                &&& made.events.last() == (EventView::ModelStepStarted {
                    step: t.step,
                    input: step_input(TurnView { history: request.input, ..t }),
                })
            }
        }),
{
    lemma_settled_is_part(t);
}

/// A summary is told with what the history weighed before and what it weighs now, how many items it took
/// the place of, and how long it took.
pub proof fn law_summaries_are_weighed(
    t: TurnView,
    before_tokens: int,
    before_items: int,
    sample: SampledStep,
    duration_ms: u64,
)
    requires
        t.phase == (PhaseView::Compacting { before_tokens, before_items }),
        !t.forced,
    ensures
        ({
            let made = advanced(t, TurnInput::Sampled { outcome: Ok(sample), duration_ms });
            made.next matches NextView::Sample { request, .. } ==> {
                &&& made.events.len() >= 3
                &&& made.events[0] matches EventView::ContextCompactionCompleted {
                    before_tokens: before,
                    after_tokens: after,
                    removed_items: removed,
                    duration_ms: took,
                    ..
                } && before == before_tokens && took == duration_ms && (made.events.len() == 3 ==> after
                    == history_tokens(request.input) && removed == less(
                    before_items,
                    request.input.len() as int,
                ))
            }
        }),
{
    let made = advanced(t, TurnInput::Sampled { outcome: Ok(sample), duration_ms });
    let summary = crate::text::trimmed(sample@.message);
    let room = if t.budget / 3 < 20_000 {
        t.budget / 3
    } else {
        20_000
    };
    if summary.len() > 0 {
        let compacted = TurnView {
            history: crate::agent::history::compacted_history(t.history, summary, room),
            usage: crate::protocol::model::usage_sum(t.usage, sample@.usage),
            ..t
        };
        lemma_settled_is_part(compacted);
    }
}

} // verus!
