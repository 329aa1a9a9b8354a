//! What providers are told of a request, and what is made of their answers.
//!
//! The modules beside this one say how bodies are written and streams are read. Here is said what may
//! be relied on: that nothing of a request is lost on its way, and nothing of an answer.

use crate::json::{
    field, field2, items_field, json_parsed, json_text, lookup, text_field, text_in, JsonView,
};
use crate::model::responses::{
    body_head, body_members, body_options, body_tail, effective_effort, function_tool, input_item,
    marked_block, member_if, message_of, offered_tools, request_input, search_tool,
    stable_instructions, text_format, OpenAiReasoningEffort,
};
use crate::protocol::model::{ItemView, MessageRole, PromptCacheMode, RequestView, ToolView};
use vstd::prelude::*;

verus! {

/// A key is found in the first of two lists that has it.
pub proof fn lemma_lookup_in_both(
    a: Seq<(Seq<char>, JsonView)>,
    b: Seq<(Seq<char>, JsonView)>,
    key: Seq<char>,
)
    ensures
        lookup(a + b, key) == (if lookup(a, key) is Some {
            lookup(a, key)
        } else {
            lookup(b, key)
        }),
    decreases a.len(),
{
    if a.len() == 0 {
        assert(a + b =~= b);
    } else {
        assert((a + b)[0] == a[0]);
        assert((a + b).drop_first() =~= a.drop_first() + b);
        lemma_lookup_in_both(a.drop_first(), b, key);
    }
}

/// A key is found at the first member that has it.
pub proof fn lemma_lookup_at(members: Seq<(Seq<char>, JsonView)>, key: Seq<char>, i: int)
    requires
        0 <= i <= members.len(),
        forall|j: int| 0 <= j < i ==> (#[trigger] members[j]).0 != key,
        i < members.len() ==> members[i].0 == key,
    ensures
        lookup(members, key) == (if i < members.len() {
            Some(members[i].1)
        } else {
            None
        }),
    decreases i,
{
    if i > 0 {
        let rest = members.drop_first();
        assert(members[0].0 != key);
        assert forall|j: int| 0 <= j < i - 1 implies (#[trigger] rest[j]).0 != key by {
            assert(rest[j] == members[j + 1]);
        }
        lemma_lookup_at(rest, key, i - 1);
    }
}

/// Whether an item of a body carries an item of the history: all that it holds can be read from it.
pub open spec fn carries(j: JsonView, item: ItemView) -> bool {
    match item {
        ItemView::Message { role, content } => {
            &&& text_field(j, "role"@) == Some(
                match role {
                    MessageRole::User => "user"@,
                    MessageRole::Developer => "developer"@,
                    MessageRole::Assistant => "assistant"@,
                },
            )
            &&& items_field(j, "content"@) matches Some(blocks) && blocks.len() == 1 && text_field(
                blocks[0],
                "text"@,
            ) == Some(content) && text_field(blocks[0], "type"@) == Some(
                if role == MessageRole::Assistant {
                    "output_text"@
                } else {
                    "input_text"@
                },
            )
        },
        ItemView::FunctionCall { call_id, name, arguments } => {
            &&& text_field(j, "type"@) == Some("function_call"@)
            &&& text_field(j, "call_id"@) == Some(call_id)
            &&& text_field(j, "name"@) == Some(name)
            &&& text_field(j, "arguments"@) == Some(arguments)
        },
        ItemView::FunctionCallOutput { call_id, output } => {
            &&& text_field(j, "type"@) == Some("function_call_output"@)
            &&& text_field(j, "call_id"@) == Some(call_id)
            &&& text_field(j, "output"@) matches Some(written) && {
                &&& written == json_text(output)
                &&& json_parsed(json_text(output)) == Ok::<JsonView, Seq<char>>(output)
                    ==> json_parsed(written) == Ok::<JsonView, Seq<char>>(output)
            }
        },
        ItemView::ResponseItem { item } => j == item,
    }
}

/// The item of a body carries the item of the history that it stands for: its role and its content,
/// its call, or the output of a tool, which is read back from it wherever it can be read back from its
/// own text.
pub proof fn law_body_items_carry_the_history(item: ItemView)
    ensures
        carries(input_item(item), item),
{
    reveal_strlit("role");
    reveal_strlit("content");
    reveal_strlit("type");
    reveal_strlit("text");
    reveal_strlit("call_id");
    reveal_strlit("arguments");
    reveal_strlit("name");
    reveal_strlit("output");
    assert("role"@.len() == 4);
    assert("content"@.len() == 7);
    assert("type"@.len() == 4);
    assert("text"@.len() == 4);
    assert("call_id"@.len() == 7);
    assert("arguments"@.len() == 9);
    assert("name"@.len() == 4);
    assert("output"@.len() == 6);
    assert("type"@[1] != "text"@[1]);
    assert("type"@[0] != "name"@[0]);
    let made = input_item(item)->Object_0;
    match item {
        ItemView::Message { .. } => {
            let block = (made[0].1->Array_0)[0]->Object_0;
            lemma_lookup_at(made, "content"@, 0);
            lemma_lookup_at(made, "role"@, 1);
            lemma_lookup_at(block, "text"@, 0);
            lemma_lookup_at(block, "type"@, 1);
        },
        ItemView::FunctionCall { .. } => {
            lemma_lookup_at(made, "arguments"@, 0);
            lemma_lookup_at(made, "call_id"@, 1);
            lemma_lookup_at(made, "name"@, 2);
            lemma_lookup_at(made, "type"@, 3);
        },
        ItemView::FunctionCallOutput { .. } => {
            lemma_lookup_at(made, "call_id"@, 0);
            lemma_lookup_at(made, "output"@, 1);
            lemma_lookup_at(made, "type"@, 2);
        },
        ItemView::ResponseItem { .. } => {},
    }
}

/// Whether two items are of one kind.
pub open spec fn same_kind(a: ItemView, b: ItemView) -> bool {
    ||| a is Message && b is Message
    ||| a is FunctionCall && b is FunctionCall
    ||| a is FunctionCallOutput && b is FunctionCallOutput
    ||| a is ResponseItem && b is ResponseItem
}

/// Two items of one kind that a body writes alike are alike: outputs have one text, and all others are
/// the same.
pub proof fn law_body_items_tell_the_history_apart(a: ItemView, b: ItemView)
    requires
        same_kind(a, b),
        input_item(a) == input_item(b),
    ensures
        a matches ItemView::FunctionCallOutput { call_id: x, output: v } ==> (
        b matches ItemView::FunctionCallOutput { call_id: y, output: w } && x == y && json_text(v)
            == json_text(w)),
        !(a is FunctionCallOutput) ==> a == b,
{
    law_body_items_carry_the_history(a);
    law_body_items_carry_the_history(b);
    reveal_strlit("user");
    reveal_strlit("developer");
    reveal_strlit("assistant");
    assert("user"@.len() == 4);
    assert("developer"@.len() == 9);
    assert("assistant"@.len() == 9);
    assert("developer"@[0] != "assistant"@[0]);
}

/// Whether a tool of a body is a tool of the request: its name, what it says of itself and what it
/// takes.
pub open spec fn carries_tool(j: JsonView, tool: ToolView) -> bool {
    &&& text_field(j, "type"@) == Some("function"@)
    &&& text_field(j, "name"@) == Some(tool.name)
    &&& text_field(j, "description"@) == Some(tool.description)
    &&& field(j, "parameters"@) == Some(tool.input_schema)
}

proof fn lemma_tools_are_carried(tool: ToolView)
    ensures
        carries_tool(function_tool(tool), tool),
{
    reveal_strlit("name");
    reveal_strlit("description");
    reveal_strlit("parameters");
    reveal_strlit("strict");
    reveal_strlit("type");
    assert("name"@.len() == 4);
    assert("description"@.len() == 11);
    assert("parameters"@.len() == 10);
    assert("strict"@.len() == 6);
    assert("type"@.len() == 4);
    assert("type"@[0] != "name"@[0]);
    let made = function_tool(tool)->Object_0;
    lemma_lookup_at(made, "description"@, 0);
    lemma_lookup_at(made, "name"@, 1);
    lemma_lookup_at(made, "parameters"@, 2);
    lemma_lookup_at(made, "type"@, 4);
}

/// The body of a request offers every tool of it, in order, and then every hosted one.
pub proof fn law_bodies_offer_the_tools(request: RequestView, i: int)
    ensures
        offered_tools(request).len() == request.tools.len() + request.hosted_tools.len(),
        0 <= i < request.tools.len() ==> carries_tool(offered_tools(request)[i], request.tools[i]),
        request.tools.len() <= i < offered_tools(request).len() ==> text_field(
            offered_tools(request)[i],
            "type"@,
        ) == Some("web_search"@) && text_field(offered_tools(request)[i], "search_context_size"@)
            == (match request.web_search_context_size {
            Some(size) => Some(size.text()),
            None => None,
        }),
{
    if 0 <= i < request.tools.len() {
        lemma_tools_are_carried(request.tools[i]);
    }
    reveal_strlit("search_context_size");
    reveal_strlit("type");
    assert("search_context_size"@.len() == 19);
    assert("type"@.len() == 4);
    let made = search_tool(request.web_search_context_size)->Object_0;
    if request.web_search_context_size is Some {
        lemma_lookup_at(made, "search_context_size"@, 0);
        lemma_lookup_at(made, "type"@, 1);
    } else {
        lemma_lookup_at(made, "search_context_size"@, 1);
        lemma_lookup_at(made, "type"@, 0);
    }
}

proof fn lemma_body_lookup(
    request: RequestView,
    effort: Option<OpenAiReasoningEffort>,
    store: bool,
    mode: PromptCacheMode,
    key: Seq<char>,
)
    ensures
        lookup(body_members(request, effort, store, mode), key) == (if lookup(
            body_head(request, mode),
            key,
        ) is Some {
            lookup(body_head(request, mode), key)
        } else if lookup(body_options(request, effort, mode), key) is Some {
            lookup(body_options(request, effort, mode), key)
        } else {
            lookup(body_tail(request, store), key)
        }),
{
    let head = body_head(request, mode);
    let options = body_options(request, effort, mode);
    lemma_lookup_in_both(head + options, body_tail(request, store), key);
    lemma_lookup_in_both(head, options, key);
}

/// A member that may be missing is found under its own key.
pub proof fn lemma_lookup_if(key: Seq<char>, value: Option<JsonView>, other: Seq<char>)
    ensures
        lookup(member_if(key, value), other) == (if key == other {
            value
        } else {
            None
        }),
{
    let made = member_if(key, value);
    if value is Some && key == other {
        lemma_lookup_at(made, other, 0);
    } else {
        lemma_lookup_at(made, other, made.len() as int);
    }
}

proof fn lemma_options_lookup(
    request: RequestView,
    effort: Option<OpenAiReasoningEffort>,
    mode: PromptCacheMode,
    key: Seq<char>,
)
    ensures
        key != "prompt_cache_key"@ && key != "prompt_cache_options"@ && key != "reasoning"@
            ==> lookup(body_options(request, effort, mode), key) is None,
        lookup(body_options(request, effort, mode), "prompt_cache_key"@) == (
        match request.prompt_cache {
            Some(cache) => Some(JsonView::Text(cache.0)),
            None => None,
        }),
        lookup(body_options(request, effort, mode), "reasoning"@) == (
        match effective_effort(request, effort) {
            Some(e) => Some(crate::model::responses::one("effort"@, JsonView::Text(e))),
            None => None,
        }),
        lookup(body_options(request, effort, mode), "prompt_cache_options"@) == (if mode
            == PromptCacheMode::Explicit {
            Some(crate::model::responses::breakpoint())
        } else {
            None
        }),
{
    reveal_strlit("prompt_cache_options");
    reveal_strlit("prompt_cache_key");
    reveal_strlit("reasoning");
    assert("prompt_cache_options"@.len() == 20);
    assert("prompt_cache_key"@.len() == 16);
    assert("reasoning"@.len() == 9);
    let a = member_if(
        "prompt_cache_key"@,
        match request.prompt_cache {
            Some(cache) => Some(JsonView::Text(cache.0)),
            None => None,
        },
    );
    let b = member_if(
        "prompt_cache_options"@,
        if mode == PromptCacheMode::Explicit {
            Some(crate::model::responses::breakpoint())
        } else {
            None
        },
    );
    let c = member_if(
        "reasoning"@,
        match effective_effort(request, effort) {
            Some(e) => Some(crate::model::responses::one("effort"@, JsonView::Text(e))),
            None => None,
        },
    );
    assert(body_options(request, effort, mode) == a + b + c);
    assert forall|k: Seq<char>| #[trigger] lookup(a + b + c, k) == (if lookup(a, k) is Some {
        lookup(a, k)
    } else if lookup(b, k) is Some {
        lookup(b, k)
    } else {
        lookup(c, k)
    }) by {
        lemma_lookup_in_both(a + b, c, k);
        lemma_lookup_in_both(a, b, k);
    }
    assert forall|k: Seq<char>| #[trigger] lookup(a + b + c, k) == (if k == "prompt_cache_key"@ {
        match request.prompt_cache {
            Some(cache) => Some(JsonView::Text(cache.0)),
            None => None,
        }
    } else if k == "prompt_cache_options"@ {
        if mode == PromptCacheMode::Explicit {
            Some(crate::model::responses::breakpoint())
        } else {
            None
        }
    } else if k == "reasoning"@ {
        match effective_effort(request, effort) {
            Some(e) => Some(crate::model::responses::one("effort"@, JsonView::Text(e))),
            None => None,
        }
    } else {
        None
    }) by {
        lemma_lookup_if(
            "prompt_cache_key"@,
            match request.prompt_cache {
                Some(cache) => Some(JsonView::Text(cache.0)),
                None => None,
            },
            k,
        );
        lemma_lookup_if(
            "prompt_cache_options"@,
            if mode == PromptCacheMode::Explicit {
                Some(crate::model::responses::breakpoint())
            } else {
                None
            },
            k,
        );
        lemma_lookup_if(
            "reasoning"@,
            match effective_effort(request, effort) {
                Some(e) => Some(crate::model::responses::one("effort"@, JsonView::Text(e))),
                None => None,
            },
            k,
        );
    }
}

/// The body of a request carries the request: the model, the instructions, every item of the history
/// in order, every tool, and how to answer. The effort is that of the request, or else the configured
/// one. Under explicit caching the instructions open the input.
pub proof fn law_bodies_carry_the_request(
    request: RequestView,
    effort: Option<OpenAiReasoningEffort>,
    store: bool,
    mode: PromptCacheMode,
)
    ensures
        ({
            let body = JsonView::Object(body_members(request, effort, store, mode));
            let first: int = if mode == PromptCacheMode::Explicit {
                1
            } else {
                0
            };
            &&& text_field(body, "model"@) == Some(request.model)
            &&& field(body, "stream"@) == Some(JsonView::Bool(true))
            &&& field(body, "store"@) == Some(JsonView::Bool(store))
            &&& field(body, "parallel_tool_calls"@) == Some(
                JsonView::Bool(request.parallel_tool_calls),
            )
            &&& text_field(body, "tool_choice"@) == Some(request.tool_choice.text())
            &&& items_field(body, "tools"@) == Some(offered_tools(request))
            &&& items_field(body, "input"@) matches Some(items) && {
                &&& items.len() == request.input.len() + first
                &&& forall|i: int|
                    0 <= i < request.input.len() ==> carries(
                        items[first + i],
                        #[trigger] request.input[i],
                    )
                &&& mode == PromptCacheMode::Explicit && crate::text::trimmed(
                    request.instructions,
                ).len() > 0 ==> (items_field(items[0], "content"@) matches Some(blocks)
                    && blocks.len() == 1 && text_field(blocks[0], "text"@) == Some(
                    request.instructions,
                ))
            }
            &&& mode == PromptCacheMode::Implicit ==> text_field(body, "instructions"@) == Some(
                request.instructions,
            )
            &&& text_field(body, "prompt_cache_key"@) == (match request.prompt_cache {
                Some(cache) => Some(cache.0),
                None => None,
            })
            &&& text_in(field2(body, "reasoning"@, "effort"@)) == (match request.reasoning_effort {
                Some(e) => Some(e.text()),
                None => match effort {
                    Some(e) => Some(e.text()),
                    None => None,
                },
            })
            &&& field2(body, "text"@, "format"@) == (match request.response_format {
                Some(format) => Some(
                    JsonView::Object(
                        seq![
                            ("name"@, JsonView::Text(format.name)),
                            ("schema"@, format.schema),
                            ("strict"@, JsonView::Bool(format.strict)),
                            ("type"@, JsonView::Text("json_schema"@)),
                        ],
                    ),
                ),
                None => None,
            })
        }),
{
    let head = body_head(request, mode);
    let tail = body_tail(request, store);
    lemma_body_lookup(request, effort, store, mode, "model"@);
    lemma_options_lookup(request, effort, mode, "model"@);
    lemma_body_lookup(request, effort, store, mode, "stream"@);
    lemma_options_lookup(request, effort, mode, "stream"@);
    lemma_body_lookup(request, effort, store, mode, "store"@);
    lemma_options_lookup(request, effort, mode, "store"@);
    lemma_body_lookup(request, effort, store, mode, "parallel_tool_calls"@);
    lemma_options_lookup(request, effort, mode, "parallel_tool_calls"@);
    lemma_body_lookup(request, effort, store, mode, "tool_choice"@);
    lemma_options_lookup(request, effort, mode, "tool_choice"@);
    lemma_body_lookup(request, effort, store, mode, "tools"@);
    lemma_options_lookup(request, effort, mode, "tools"@);
    lemma_body_lookup(request, effort, store, mode, "input"@);
    lemma_options_lookup(request, effort, mode, "input"@);
    lemma_body_lookup(request, effort, store, mode, "instructions"@);
    lemma_options_lookup(request, effort, mode, "instructions"@);
    lemma_body_lookup(request, effort, store, mode, "prompt_cache_key"@);
    lemma_options_lookup(request, effort, mode, "prompt_cache_key"@);
    lemma_body_lookup(request, effort, store, mode, "reasoning"@);
    lemma_options_lookup(request, effort, mode, "reasoning"@);
    lemma_body_lookup(request, effort, store, mode, "text"@);
    lemma_options_lookup(request, effort, mode, "text"@);
    reveal_strlit("instructions");
    reveal_strlit("input");
    reveal_strlit("model");
    reveal_strlit("parallel_tool_calls");
    reveal_strlit("prompt_cache_key");
    reveal_strlit("prompt_cache_options");
    reveal_strlit("reasoning");
    reveal_strlit("store");
    reveal_strlit("stream");
    reveal_strlit("text");
    reveal_strlit("tool_choice");
    reveal_strlit("tools");
    assert("instructions"@.len() == 12);
    assert("input"@.len() == 5);
    assert("model"@.len() == 5);
    assert("parallel_tool_calls"@.len() == 19);
    assert("prompt_cache_key"@.len() == 16);
    assert("prompt_cache_options"@.len() == 20);
    assert("reasoning"@.len() == 9);
    assert("store"@.len() == 5);
    assert("stream"@.len() == 6);
    assert("text"@.len() == 4);
    assert("tool_choice"@.len() == 11);
    assert("tools"@.len() == 5);
    assert("model"@[0] != "input"@[0]);
    assert("store"@[0] != "input"@[0]);
    assert("store"@[0] != "model"@[0]);
    assert("tools"@[0] != "input"@[0]);
    assert("tools"@[0] != "model"@[0]);
    assert("tools"@[0] != "store"@[0]);
    let opening = seq![("store"@, JsonView::Bool(store)), ("stream"@, JsonView::Bool(true))];
    let form = member_if(
        "text"@,
        match request.response_format {
            Some(format) => Some(text_format(format)),
            None => None,
        },
    );
    let end = seq![
        ("tool_choice"@, JsonView::Text(request.tool_choice.text())),
        ("tools"@, JsonView::Array(offered_tools(request))),
    ];
    assert(tail == opening + form + end);
    assert forall|k: Seq<char>| #[trigger] lookup(opening + form + end, k) == (if lookup(
        opening,
        k,
    ) is Some {
        lookup(opening, k)
    } else if lookup(form, k) is Some {
        lookup(form, k)
    } else {
        lookup(end, k)
    }) by {
        lemma_lookup_in_both(opening + form, end, k);
        lemma_lookup_in_both(opening, form, k);
    }
    lemma_lookup_at(head, "input"@, 0);
    lemma_lookup_at(head, "instructions"@, 1);
    lemma_lookup_at(head, "model"@, 2);
    lemma_lookup_at(head, "parallel_tool_calls"@, 3);
    lemma_lookup_at(head, "stream"@, 4);
    lemma_lookup_at(head, "store"@, 4);
    lemma_lookup_at(head, "tool_choice"@, 4);
    lemma_lookup_at(head, "tools"@, 4);
    lemma_lookup_at(head, "text"@, 4);
    lemma_lookup_at(head, "prompt_cache_key"@, 4);
    lemma_lookup_at(head, "reasoning"@, 4);
    lemma_lookup_at(opening, "stream"@, 1);
    lemma_lookup_at(end, "stream"@, 2);
    lemma_lookup_if(
        "text"@,
        match request.response_format {
            Some(format) => Some(text_format(format)),
            None => None,
        },
        "stream"@,
    );
    lemma_lookup_at(opening, "store"@, 0);
    lemma_lookup_at(end, "store"@, 2);
    lemma_lookup_if(
        "text"@,
        match request.response_format {
            Some(format) => Some(text_format(format)),
            None => None,
        },
        "store"@,
    );
    lemma_lookup_at(opening, "tool_choice"@, 2);
    lemma_lookup_at(end, "tool_choice"@, 0);
    lemma_lookup_if(
        "text"@,
        match request.response_format {
            Some(format) => Some(text_format(format)),
            None => None,
        },
        "tool_choice"@,
    );
    lemma_lookup_at(opening, "tools"@, 2);
    lemma_lookup_at(end, "tools"@, 1);
    lemma_lookup_if(
        "text"@,
        match request.response_format {
            Some(format) => Some(text_format(format)),
            None => None,
        },
        "tools"@,
    );
    lemma_lookup_at(opening, "text"@, 2);
    lemma_lookup_at(end, "text"@, 2);
    lemma_lookup_if(
        "text"@,
        match request.response_format {
            Some(format) => Some(text_format(format)),
            None => None,
        },
        "text"@,
    );
    lemma_lookup_at(opening, "prompt_cache_key"@, 2);
    lemma_lookup_at(end, "prompt_cache_key"@, 2);
    lemma_lookup_if(
        "text"@,
        match request.response_format {
            Some(format) => Some(text_format(format)),
            None => None,
        },
        "prompt_cache_key"@,
    );
    lemma_lookup_at(opening, "reasoning"@, 2);
    lemma_lookup_at(end, "reasoning"@, 2);
    lemma_lookup_if(
        "text"@,
        match request.response_format {
            Some(format) => Some(text_format(format)),
            None => None,
        },
        "reasoning"@,
    );
    if let Some(e) = effective_effort(request, effort) {
        lemma_lookup_at(
            crate::model::responses::one("effort"@, JsonView::Text(e))->Object_0,
            "effort"@,
            0,
        );
    }
    if let Some(format) = request.response_format {
        lemma_lookup_at(text_format(format)->Object_0, "format"@, 0);
    }
    let items = request_input(request, mode);
    let first: int = if mode == PromptCacheMode::Explicit {
        1
    } else {
        0
    };
    assert forall|i: int| 0 <= i < request.input.len() implies carries(
        items[first + i],
        #[trigger] request.input[i],
    ) by {
        law_body_items_carry_the_history(request.input[i]);
        assert(items[first + i] == input_item(request.input[i]));
    }
    reveal_strlit("role");
    reveal_strlit("content");
    reveal_strlit("text");
    reveal_strlit("prompt_cache_breakpoint");
    reveal_strlit("type");
    assert("role"@.len() == 4);
    assert("content"@.len() == 7);
    assert("text"@.len() == 4);
    assert("prompt_cache_breakpoint"@.len() == 23);
    assert("type"@.len() == 4);
    assert("type"@[1] != "text"@[1]);
    if mode == PromptCacheMode::Explicit {
        let message = message_of("developer"@, marked_block(stable_instructions(request.instructions)));
        assert(items[0] == message);
        let block = marked_block(stable_instructions(request.instructions));
        lemma_lookup_at(message->Object_0, "content"@, 0);
        lemma_lookup_at(block->Object_0, "text"@, 1);
    }
}

} // verus!
