//! Workflow programs written by a model.

use crate::json::{field, group_json, lookup, text_in, Json, JsonView};
use crate::model::error::{ModelError, ModelErrorView};
use crate::protocol::model::{
    ItemView, MessageRole, ModelEvent, ModelEventView, ModelInputItem, ModelRequest,
    ModelToolChoice, RequestView,
};
use crate::server::demo::{demo_answer, labelled, last_message, workflow_text};
use crate::text::{
    begins_with, has_prefix, is_blank, join, joined, lemma_break_is_an_empty_line,
    lemma_last_break_adds_nothing, lemma_lines_of_both, lemma_one_line, lemma_trimmed_ends, lines,
    maybe, same, split_lines, stands_at, texts, trim, trimmed,
};
use vstd::prelude::*;
use vstd::utf8::encode_utf8;

verus! {

broadcast use group_json;

/// A request for a workflow program.
#[derive(Debug)]
pub struct WorkflowGenerationRequest {
    pub description: String,
    pub name: Option<String>,
    pub slug: Option<String>,
    pub model: Option<String>,
}

/// Why a workflow program could not be written.
#[derive(Debug)]
pub enum WorkflowGeneratorError {
    Model(ModelError),
    InvalidRequest(String),
    Cancelled,
    Incomplete,
}

/// The mathematical value of a [`WorkflowGeneratorError`].
pub ghost enum GeneratorErrorView {
    Model(ModelErrorView),
    InvalidRequest(Seq<char>),
    Cancelled,
    Incomplete,
}

impl View for WorkflowGeneratorError {
    type V = GeneratorErrorView;

    open spec fn view(&self) -> GeneratorErrorView {
        match *self {
            WorkflowGeneratorError::Model(e) => GeneratorErrorView::Model(e@),
            WorkflowGeneratorError::InvalidRequest(m) => GeneratorErrorView::InvalidRequest(m@),
            WorkflowGeneratorError::Cancelled => GeneratorErrorView::Cancelled,
            WorkflowGeneratorError::Incomplete => GeneratorErrorView::Incomplete,
        }
    }
}

impl WorkflowGeneratorError {
    /// What is said of the error.
    pub fn message(&self) -> (r: String)
        ensures
            r@ == (match self@ {
                GeneratorErrorView::Model(e) => e.message(),
                GeneratorErrorView::InvalidRequest(m) => "invalid workflow generation request: "@
                    + m,
                GeneratorErrorView::Cancelled => "workflow generation was cancelled"@,
                GeneratorErrorView::Incomplete => {
                    "model stream ended without a complete workflow source"@
                },
            }),
    {
        match self {
            WorkflowGeneratorError::Model(e) => e.message(),
            WorkflowGeneratorError::InvalidRequest(m) => {
                let mut r = "invalid workflow generation request: ".to_owned();
                r.append(m.as_str());
                r
            },
            WorkflowGeneratorError::Cancelled => "workflow generation was cancelled".to_owned(),
            WorkflowGeneratorError::Incomplete => {
                "model stream ended without a complete workflow source".to_owned()
            },
        }
    }
}

/// What a model is told about workflow programs.
pub open spec fn generator_instructions() -> Seq<char> {
    "You design "@ + "PaperMachine Workflow Language v1"@
        + " programs. Return only executable workflow.pm source, without Markdown fences or explanation.\n\nAvailable API:\n- Agent base class; class attributes: role, instructions, model, skills.\n- @action, @action(\"prompt\"), or @action(max_steps=N, max_search_calls=M, search_context_size=\"low\", reasoning_effort=\"high\", max_output_tokens=K) on async Agent methods. The method body is declarative; its docstring/prompt and arguments become a Codex-like Session Turn. Use max_steps=1 for evaluators and synthesizers that must reason only over supplied evidence without calling tools. Give every research action a finite max_search_calls allowance and normally use low search context for bounded parallel routes. Assign lower reasoning effort and a bounded output ceiling to planning/routing actions, and reserve higher effort for evidence judgment and final synthesis.\n- Annotate an action with -> dict, -> list, -> bool, -> int, or -> float when workflow control flow needs parsed JSON rather than raw text.\n- @workflow(slug=..., name=..., version=\"0.1.0\", description=..., input_schema={...}, output_schema={...}, budget={...}) on exactly one async main(ctx).\n- ctx.objective, ctx.input, ctx.run_id.\n- await together(a.action(...), b.action(...)) for explicit concurrency. Never put two actions from the same Agent in one together().\n- Team(name, *agents), await team.add(agent), await team.remove(agent), await agent.retire().\n- await relate(source, target, kind=\"reviews\", instructions=\"...\").\n- async with scope(name, objective): ...\n- Channel(name, schema={...}); await channel.publish(value, sender=agent); await channel.receive().\n- await ask_human(question, response_schema={...}, agent=optional_agent).\n- @every(seconds=..., policy=\"coalesce\") on a nested async callback for periodic work.\n- background(coroutine) returns a handle with await handle.join().\n\nUse ordinary Python if/for/while for long-running control logic. All imports must be a single `from papermachine import ...` statement. Do not import or access files, network, subprocesses, environment variables, reflection, MCP, plugins, or external libraries. Every Agent class must declare one access profile: `model_only`, `read_only`, `workspace`, `research`, or `full_access`. Use `research` only for Agents that gather external evidence, `model_only` for evaluators and writers that should use supplied evidence, and request `full_access` only when the user's description truly requires unrestricted host access because it pauses for explicit human approval. Prefer 2-4 clearly related Agent classes and keep the program understandable to a researcher editing it."@
}

/// The longest description, in bytes.
pub const MAX_DESCRIPTION: usize = 12_000;

/// Whether a description can be worked on.
pub open spec fn described(description: Seq<char>) -> bool {
    0 < trimmed(description).len() && encode_utf8(trimmed(description)).len() <= MAX_DESCRIPTION
}

/// A text, or another where it is missing.
pub open spec fn text_or(text: Option<Seq<char>>, otherwise: Seq<char>) -> Seq<char> {
    match text {
        Some(t) => t,
        None => otherwise,
    }
}

/// What a model is asked for.
pub open spec fn generation_prompt(
    description: Seq<char>,
    name: Option<Seq<char>>,
    slug: Option<Seq<char>>,
) -> Seq<char> {
    "Create a workflow for this request:\n"@ + trimmed(description) + "\n\nRequested name: "@
        + text_or(name, "choose a concise name"@) + "\nRequested slug: "@ + text_or(
        slug,
        "derive lowercase kebab-case"@,
    )
}

/// The request to a model for a workflow program.
pub open spec fn generation_view(
    request: WorkflowGenerationRequest,
    default_model: Seq<char>,
) -> RequestView {
    RequestView {
        model: text_or(maybe(request.model), default_model),
        reasoning_effort: None,
        instructions: generator_instructions(),
        input: seq![
            ItemView::Message {
                role: MessageRole::User,
                content: generation_prompt(
                    request.description@,
                    maybe(request.name),
                    maybe(request.slug),
                ),
            },
        ],
        prompt_cache: None,
        transport_session_key: None,
        tools: Seq::empty(),
        hosted_tools: Seq::empty(),
        web_search_context_size: None,
        parallel_tool_calls: false,
        tool_choice: ModelToolChoice::Auto,
        response_format: None,
    }
}

/// What is said of a description that cannot be worked on.
pub open spec fn bad_description() -> Seq<char> {
    "workflow description must contain 1-12000 characters"@
}

fn write_instructions() -> (r: String)
    ensures
        r@ == generator_instructions(),
{
    let mut r = "You design ".to_owned();
    r.append("PaperMachine Workflow Language v1");
    r.append(" programs. Return only executable workflow.pm source, without Markdown fences or explanation.\n\nAvailable API:\n- Agent base class; class attributes: role, instructions, model, skills.\n- @action, @action(\"prompt\"), or @action(max_steps=N, max_search_calls=M, search_context_size=\"low\", reasoning_effort=\"high\", max_output_tokens=K) on async Agent methods. The method body is declarative; its docstring/prompt and arguments become a Codex-like Session Turn. Use max_steps=1 for evaluators and synthesizers that must reason only over supplied evidence without calling tools. Give every research action a finite max_search_calls allowance and normally use low search context for bounded parallel routes. Assign lower reasoning effort and a bounded output ceiling to planning/routing actions, and reserve higher effort for evidence judgment and final synthesis.\n- Annotate an action with -> dict, -> list, -> bool, -> int, or -> float when workflow control flow needs parsed JSON rather than raw text.\n- @workflow(slug=..., name=..., version=\"0.1.0\", description=..., input_schema={...}, output_schema={...}, budget={...}) on exactly one async main(ctx).\n- ctx.objective, ctx.input, ctx.run_id.\n- await together(a.action(...), b.action(...)) for explicit concurrency. Never put two actions from the same Agent in one together().\n- Team(name, *agents), await team.add(agent), await team.remove(agent), await agent.retire().\n- await relate(source, target, kind=\"reviews\", instructions=\"...\").\n- async with scope(name, objective): ...\n- Channel(name, schema={...}); await channel.publish(value, sender=agent); await channel.receive().\n- await ask_human(question, response_schema={...}, agent=optional_agent).\n- @every(seconds=..., policy=\"coalesce\") on a nested async callback for periodic work.\n- background(coroutine) returns a handle with await handle.join().\n\nUse ordinary Python if/for/while for long-running control logic. All imports must be a single `from papermachine import ...` statement. Do not import or access files, network, subprocesses, environment variables, reflection, MCP, plugins, or external libraries. Every Agent class must declare one access profile: `model_only`, `read_only`, `workspace`, `research`, or `full_access`. Use `research` only for Agents that gather external evidence, `model_only` for evaluators and writers that should use supplied evidence, and request `full_access` only when the user's description truly requires unrestricted host access because it pauses for explicit human approval. Prefer 2-4 clearly related Agent classes and keep the program understandable to a researcher editing it.");
    r
}

fn write_or(text: &Option<String>, otherwise: &str) -> (r: String)
    ensures
        r@ == text_or(maybe(*text), otherwise@),
{
    match text {
        Some(t) => t.clone(),
        None => otherwise.to_owned(),
    }
}

fn write_prompt(description: &str, name: &Option<String>, slug: &Option<String>) -> (r: String)
    ensures
        r@ == generation_prompt(description@, maybe(*name), maybe(*slug)),
{
    let mut r = "Create a workflow for this request:\n".to_owned();
    let about = trim(description);
    r.append(about.as_str());
    r.append("\n\nRequested name: ");
    let name = write_or(name, "choose a concise name");
    r.append(name.as_str());
    r.append("\nRequested slug: ");
    let slug = write_or(slug, "derive lowercase kebab-case");
    r.append(slug.as_str());
    r
}

/// Asks models for workflow programs.
#[derive(Debug)]
pub struct WorkflowGenerator {
    pub default_model: String,
}

impl WorkflowGenerator {
    pub fn new(default_model: String) -> (r: WorkflowGenerator)
        ensures
            r.default_model == default_model,
    {
        WorkflowGenerator { default_model }
    }

    /// The request to a model for a workflow program.
    pub fn generate(&self, request: &WorkflowGenerationRequest) -> (r: Result<
        ModelRequest,
        WorkflowGeneratorError,
    >)
        ensures
            match r {
                Ok(m) => described(request.description@) && m@ == generation_view(
                    *request,
                    self.default_model@,
                ),
                Err(e) => !described(request.description@) && e@
                    == GeneratorErrorView::InvalidRequest(bad_description()),
            },
    {
        let description = trim(request.description.as_str());
        let blank = is_blank(request.description.as_str());
        if blank || description.as_str().as_bytes().len() > MAX_DESCRIPTION {
            return Err(
                WorkflowGeneratorError::InvalidRequest(
                    "workflow description must contain 1-12000 characters".to_owned(),
                ),
            );
        }
        let content = write_prompt(request.description.as_str(), &request.name, &request.slug);
        let mut input: Vec<ModelInputItem> = Vec::new();
        input.push(ModelInputItem::Message { role: MessageRole::User, content });
        let r = ModelRequest {
            model: write_or(&request.model, self.default_model.as_str()),
            reasoning_effort: None,
            instructions: write_instructions(),
            input,
            prompt_cache: None,
            transport_session_key: None,
            tools: Vec::new(),
            hosted_tools: Vec::new(),
            web_search_context_size: None,
            parallel_tool_calls: false,
            tool_choice: ModelToolChoice::Auto,
            response_format: None,
        };
        proof {
            let v = generation_view(*request, self.default_model@);
            assert(r@.input =~= v.input);
            assert(r@.tools =~= v.tools);
            assert(r@.hosted_tools =~= v.hosted_tools);
        }
        Ok(r)
    }
}

/// The first part of a list, or what goes by the name of its place.
pub open spec fn first_part(j: JsonView) -> Option<JsonView> {
    match j {
        JsonView::Array(items) => if items.len() > 0 {
            Some(items[0])
        } else {
            None
        },
        JsonView::Object(members) => lookup(members, "0"@),
        _ => None,
    }
}

/// The text of the first part of an item's content.
pub open spec fn first_text(item: JsonView) -> Option<Seq<char>> {
    match field(item, "content"@) {
        Some(content) => match first_part(content) {
            Some(part) => text_in(field(part, "text"@)),
            None => None,
        },
        None => None,
    }
}

fn find_first_text(item: &Json) -> (r: Option<String>)
    ensures
        maybe(r) == first_text(item@),
{
    let content = match item.get("content") {
        Some(content) => content,
        None => {
            return None;
        },
    };
    let part = match content {
        Json::Array(items) => {
            if items.len() == 0 {
                return None;
            }
            assert(crate::json::views(items@)[0] == items@[0]@);
            &items[0]
        },
        _ => match content.get("0") {
            Some(part) => part,
            None => {
                return None;
            },
        },
    };
    match part.text_at("text") {
        Some(text) => Some(text.to_owned()),
        None => None,
    }
}

/// A workflow program that a model is writing.
#[derive(Debug)]
pub struct GenerationStream {
    pub source: String,
    pub completed: bool,
}

/// The source that a model has written once an event came.
pub open spec fn source_after(source: Seq<char>, event: ModelEventView) -> Seq<char> {
    match event {
        ModelEventView::OutputTextDelta(delta) => source + delta,
        ModelEventView::ResponseItemCompleted(item) => match first_text(item) {
            Some(text) => if source.len() == 0 {
                text
            } else {
                source
            },
            None => source,
        },
        _ => source,
    }
}

/// A source without the fence that a model may have put around it.
pub open spec fn unfenced(source: Seq<char>) -> Seq<char> {
    let text = trimmed(source);
    if !begins_with(text, "```"@) {
        text + "\n"@
    } else {
        let rest = if lines(text).len() > 0 {
            lines(text).drop_first()
        } else {
            Seq::empty()
        };
        let body = if rest.len() > 0 && trimmed(rest.last()) == "```"@ {
            rest.drop_last()
        } else {
            rest
        };
        joined(body, "\n"@) + "\n"@
    }
}

/// Takes the fence off a source.
pub fn strip_code_fence(source: &str) -> (r: String)
    ensures
        r@ == unfenced(source@),
{
    let mut text = trim(source);
    if !has_prefix(text.as_str(), "```") {
        text.append("\n");
        return text;
    }
    let mut body = split_lines(text.as_str());
    let ghost all = texts(body@);
    let ghost rest = if all.len() > 0 {
        all.drop_first()
    } else {
        Seq::<Seq<char>>::empty()
    };
    if body.len() > 0 {
        body.remove(0);
    }
    assert(texts(body@) =~= rest);
    let n: usize = body.len();
    if n > 0 {
        assert(rest.last() == body@[n - 1]@);
        let last = trim(body[n - 1].as_str());
        if same(last.as_str(), "```") {
            body.remove(n - 1);
            assert(texts(body@) =~= rest.drop_last());
        }
    }
    let mut r = join(&body, "\n");
    r.append("\n");
    r
}

impl GenerationStream {
    pub fn new() -> (r: GenerationStream)
        ensures
            r.source@.len() == 0,
            !r.completed,
    {
        GenerationStream { source: String::new(), completed: false }
    }

    /// Takes in an event of the answer.
    pub fn take_in(&mut self, event: &ModelEvent)
        ensures
            final(self).source@ == source_after(old(self).source@, event@),
            final(self).completed == (old(self).completed || event@ is Completed),
    {
        match event {
            ModelEvent::OutputTextDelta { delta } => {
                self.source.append(delta.as_str());
            },
            ModelEvent::ResponseItemCompleted { item } => {
                if self.source.as_str().unicode_len() == 0 {
                    if let Some(text) = find_first_text(item) {
                        self.source = text;
                    }
                }
            },
            ModelEvent::Completed { .. } => {
                self.completed = true;
            },
            ModelEvent::RequestMetadata { .. } => {},
            ModelEvent::ToolCallCompleted { .. } => {},
        }
    }

    /// The workflow program once the answer has ended.
    pub fn finish(&self) -> (r: Result<String, WorkflowGeneratorError>)
        ensures
            match r {
                Ok(source) => self.completed && trimmed(self.source@).len() > 0 && source@
                    == unfenced(self.source@),
                Err(e) => !(self.completed && trimmed(self.source@).len() > 0) && e@
                    == GeneratorErrorView::Incomplete,
            },
    {
        if !self.completed || is_blank(self.source.as_str()) {
            return Err(WorkflowGeneratorError::Incomplete);
        }
        Ok(strip_code_fence(self.source.as_str()))
    }
}

/// The source that events make, one after the other.
pub open spec fn written(events: Seq<ModelEventView>) -> Seq<char>
    decreases events.len(),
{
    if events.len() == 0 {
        Seq::empty()
    } else {
        source_after(written(events.drop_last()), events.last())
    }
}

/// The deltas of an answer, one after the other.
pub open spec fn told(events: Seq<ModelEventView>) -> Seq<char>
    decreases events.len(),
{
    if events.len() == 0 {
        Seq::empty()
    } else {
        match events.last() {
            ModelEventView::OutputTextDelta(delta) => told(events.drop_last()) + delta,
            _ => told(events.drop_last()),
        }
    }
}

/// Where the first thing that a model sends is a part of the text, the source is what it sent part
/// by part: the completed items, which repeat the text, add nothing.
pub proof fn law_parts_make_the_source(events: Seq<ModelEventView>)
    requires
        events.len() > 0,
        events[0] matches ModelEventView::OutputTextDelta(delta) && delta.len() > 0,
    ensures
        written(events) == told(events),
        written(events).len() > 0,
    decreases events.len(),
{
    if events.len() == 1 {
        assert(events.drop_last() =~= Seq::<ModelEventView>::empty());
        assert(written(events.drop_last()) =~= Seq::<char>::empty());
        assert(told(events.drop_last()) =~= Seq::<char>::empty());
    } else {
        assert(events.drop_last()[0] == events[0]);
        law_parts_make_the_source(events.drop_last());
    }
}

/// Every source ends with a line break.
pub proof fn law_sources_end_with_a_line(source: Seq<char>)
    ensures
        unfenced(source).len() > 0,
        unfenced(source).last() == '\n',
{
    reveal_strlit("\n");
}

/// What a request wants under a label, where it does not leave the choice open.
pub open spec fn wanted(
    text: Option<Seq<char>>,
    open_choice: Seq<char>,
    otherwise: Seq<char>,
) -> Seq<char> {
    match text {
        Some(value) => if begins_with(value, open_choice) {
            otherwise
        } else {
            value
        },
        None => otherwise,
    }
}

proof fn lemma_labelled_in_both(a: Seq<Seq<char>>, b: Seq<Seq<char>>, label: Seq<char>)
    ensures
        labelled(a + b, label) == (match labelled(a, label) {
            Some(value) => Some(value),
            None => labelled(b, label),
        }),
    decreases a.len(),
{
    if a.len() == 0 {
        assert(a + b =~= b);
    } else {
        assert((a + b).drop_first() =~= a.drop_first() + b);
        lemma_labelled_in_both(a.drop_first(), b, label);
    }
}

proof fn lemma_label_on_one_line(line: Seq<char>, label: Seq<char>)
    ensures
        labelled(seq![line], label) == (if begins_with(line, label) {
            Some(line.skip(label.len() as int))
        } else {
            None
        }),
{
    assert(seq![line].drop_first() =~= Seq::<Seq<char>>::empty());
    assert(labelled(seq![line].drop_first(), label) is None);
}

/// The lines of a prompt: a heading, the description, an empty line, the name and the slug.
proof fn lemma_prompt_lines(description: Seq<char>, name: Seq<char>, slug: Seq<char>)
    requires
        trimmed(description).len() > 0,
        !name.contains('\n'),
        name.len() > 0 ==> name.last() != '\r',
        !slug.contains('\n'),
    ensures
        lines(generation_prompt(description, Some(name), Some(slug))) == seq![
            "Create a workflow for this request:"@,
        ] + (lines(trimmed(description)) + (seq![Seq::<char>::empty()] + (seq![
            "Requested name: "@ + name,
        ] + seq!["Requested slug: "@ + slug]))),
{
    let about = trimmed(description);
    let heading = "Create a workflow for this request:"@;
    let named = "Requested name: "@ + name;
    let last = "Requested slug: "@ + slug;
    reveal_strlit("Create a workflow for this request:");
    reveal_strlit("Create a workflow for this request:\n");
    reveal_strlit("\n\nRequested name: ");
    reveal_strlit("Requested name: ");
    reveal_strlit("\nRequested slug: ");
    reveal_strlit("Requested slug: ");
    lemma_trimmed_ends(description);
    let prompt = generation_prompt(description, Some(name), Some(slug));
    let after_name = named.push('\n') + last;
    let after_gap = seq!['\n'] + after_name;
    let after_heading = about.push('\n') + after_gap;
    assert("Create a workflow for this request:\n"@ =~= heading.push('\n'));
    assert("\n\nRequested name: "@ =~= seq!['\n'] + (seq!['\n'] + "Requested name: "@));
    assert("\nRequested slug: "@ =~= seq!['\n'] + "Requested slug: "@);
    assert(prompt =~= heading.push('\n') + after_heading);
    lemma_lines_of_both(heading.push('\n'), after_heading);
    lemma_lines_of_both(about.push('\n'), after_gap);
    lemma_lines_of_both(seq!['\n'], after_name);
    lemma_lines_of_both(named.push('\n'), last);
    lemma_last_break_adds_nothing(heading);
    lemma_one_line(heading);
    lemma_last_break_adds_nothing(about);
    assert(named.last() == (if name.len() > 0 {
        name.last()
    } else {
        ' '
    }));
    assert(name.len() > 0 ==> name.contains(name.last()));
    lemma_last_break_adds_nothing(named);
    assert forall|k: int| 0 <= k < named.len() implies named[k] != '\n' by {
        if k >= "Requested name: "@.len() {
            assert(name.contains(named[k]));
        }
    }
    lemma_one_line(named);
    assert forall|k: int| 0 <= k < last.len() implies last[k] != '\n' by {
        if k >= "Requested slug: "@.len() {
            assert(slug.contains(last[k]));
        }
    }
    lemma_one_line(last);
    lemma_break_is_an_empty_line();
}

proof fn lemma_label_among(
    label: Seq<char>,
    a: Seq<Seq<char>>,
    b: Seq<Seq<char>>,
    c: Seq<Seq<char>>,
    d: Seq<Seq<char>>,
    e: Seq<Seq<char>>,
)
    requires
        labelled(a, label) is None,
        labelled(b, label) is None,
        labelled(c, label) is None,
    ensures
        labelled(a + (b + (c + (d + e))), label) == (match labelled(d, label) {
            Some(value) => Some(value),
            None => labelled(e, label),
        }),
{
    lemma_labelled_in_both(a, b + (c + (d + e)), label);
    lemma_labelled_in_both(b, c + (d + e), label);
    lemma_labelled_in_both(c, d + e, label);
    lemma_labelled_in_both(d, e, label);
}

/// What a model without a provider answers to a request for a workflow is the canned program with
/// the slug and the name that were asked for. The description must hold no line that reads like
/// one of the labels, and the name and the slug are one line each.
pub proof fn law_demo_writes_the_workflow(
    request: WorkflowGenerationRequest,
    default_model: Seq<char>,
)
    requires
        described(request.description@),
        labelled(lines(trimmed(request.description@)), "Requested name: "@) is None,
        labelled(lines(trimmed(request.description@)), "Requested slug: "@) is None,
        maybe(request.name) matches Some(name) ==> !name.contains('\n') && (name.len() > 0
            ==> name.last() != '\r'),
        maybe(request.slug) matches Some(slug) ==> !slug.contains('\n'),
    ensures
        demo_answer(generation_view(request, default_model)) == workflow_text(
            wanted(maybe(request.slug), "derive "@, "generated-evidence-review"@),
            wanted(maybe(request.name), "choose "@, "Generated evidence review"@),
        ),
        begins_with(demo_answer(generation_view(request, default_model)), "version 1;"@),
{
    let view = generation_view(request, default_model);
    let name = text_or(maybe(request.name), "choose a concise name"@);
    let slug = text_or(maybe(request.slug), "derive lowercase kebab-case"@);
    let prompt = generation_prompt(request.description@, maybe(request.name), maybe(request.slug));
    assert(prompt == generation_prompt(request.description@, Some(name), Some(slug)));
    let words = "PaperMachine Workflow Language v1"@;
    let start = "You design "@;
    assert(stands_at(view.instructions, words, start.len() as int)) by {
        let from = start.len() as int;
        assert(view.instructions.subrange(from, from + words.len()) =~= words);
    }
    assert(last_message(view.input) == prompt) by {
        assert(view.input.last() == view.input[0]);
    }
    reveal_strlit("choose a concise name");
    reveal_strlit("choose ");
    reveal_strlit("derive lowercase kebab-case");
    reveal_strlit("derive ");
    reveal_strlit("Requested name: ");
    reveal_strlit("Requested slug: ");
    reveal_strlit("Create a workflow for this request:");
    assert("choose a concise name"@.subrange(0, 7) =~= "choose "@);
    assert("derive lowercase kebab-case"@.subrange(0, 7) =~= "derive "@);
    lemma_prompt_lines(request.description@, name, slug);
    let heading = seq!["Create a workflow for this request:"@];
    let about = lines(trimmed(request.description@));
    let gap = seq![Seq::<char>::empty()];
    let named = "Requested name: "@ + name;
    let last = "Requested slug: "@ + slug;
    lemma_label_on_one_line(heading[0], "Requested name: "@);
    lemma_label_on_one_line(heading[0], "Requested slug: "@);
    lemma_label_on_one_line(gap[0], "Requested name: "@);
    lemma_label_on_one_line(gap[0], "Requested slug: "@);
    lemma_label_on_one_line(named, "Requested name: "@);
    lemma_label_on_one_line(named, "Requested slug: "@);
    lemma_label_on_one_line(last, "Requested slug: "@);
    assert(heading[0].subrange(0, 16)[0] == 'C');
    assert("Requested name: "@[0] == 'R' && "Requested slug: "@[0] == 'R');
    assert(named.subrange(0, 16) =~= "Requested name: "@);
    assert(named.skip(16) =~= name);
    assert(named.subrange(0, 16)[10] == 'n');
    assert("Requested slug: "@[10] == 's');
    assert(last.subrange(0, 16) =~= "Requested slug: "@);
    assert(last.skip(16) =~= slug);
    lemma_label_among("Requested name: "@, heading, about, gap, seq![named], seq![last]);
    lemma_label_among("Requested slug: "@, heading, about, gap, seq![named], seq![last]);
    let answer = demo_answer(view);
    assert(answer.subrange(0, "version 1;"@.len() as int) =~= "version 1;"@);
}

} // verus!
