//! Canned answers for a server without providers.

use crate::json::{group_json, json_text, put, Json, JsonView};
use crate::model::chat_stream::event_views;
use crate::protocol::model::{
    item_views, ItemView, ModelEvent, ModelEventView, ModelInputItem, ModelRequest, RequestView,
    TokenUsage,
};
use crate::text::{
    begins_with, contains, debug_text, has_prefix, lines, maybe, occurs, quoted, same, split_lines,
    strip_prefix, texts, trim, trimmed,
};
use vstd::prelude::*;

verus! {

broadcast use group_json;

/// A model that answers without a provider.
#[derive(Clone, Copy, Debug, PartialEq, Eq, Structural)]
pub struct DemoModelClient;

/// What a completed canned answer uses.
pub open spec fn demo_usage() -> TokenUsage {
    TokenUsage {
        input_tokens: 240,
        output_tokens: 180,
        cached_input_tokens: 0,
        cache_write_input_tokens: 0,
    }
}

/// The events of an answer that is one text.
pub open spec fn completed(text: Seq<char>) -> Seq<ModelEventView> {
    seq![ModelEventView::OutputTextDelta(text), ModelEventView::Completed(demo_usage())]
}

fn completed_text(output: String) -> (r: Vec<ModelEvent>)
    ensures
        event_views(r@) == completed(output@),
{
    let mut r: Vec<ModelEvent> = Vec::new();
    r.push(ModelEvent::OutputTextDelta { delta: output });
    r.push(
        ModelEvent::Completed {
            usage: TokenUsage {
                input_tokens: 240,
                output_tokens: 180,
                cached_input_tokens: 0,
                cache_write_input_tokens: 0,
            },
        },
    );
    assert(event_views(r@) =~= completed(output@));
    r
}

/// A list of texts as a JSON value.
pub open spec fn text_items(items: Seq<Seq<char>>) -> JsonView {
    JsonView::Array(items.map_values(|t: Seq<char>| JsonView::Text(t)))
}

fn texts_array(items: &Vec<&str>) -> (r: Json)
    ensures
        r@ == text_items(items@.map_values(|t: &str| t@)),
{
    let ghost all = items@.map_values(|t: &str| t@);
    let ghost values = all.map_values(|t: Seq<char>| JsonView::Text(t));
    let mut r: Vec<Json> = Vec::new();
    let mut i: usize = 0;
    while i < items.len()
        invariant
            i <= items@.len(),
            all == items@.map_values(|t: &str| t@),
            values == all.map_values(|t: Seq<char>| JsonView::Text(t)),
            crate::json::views(r@) == values.take(i as int),
        decreases items.len() - i,
    {
        r.push(Json::text(items[i]));
        assert(values.take(i + 1) =~= values.take(i as int).push(values[i as int]));
        i = i + 1;
    }
    assert(values.take(i as int) =~= values);
    Json::Array(r)
}

fn one_text(text: &str) -> (r: Json)
    ensures
        r@ == text_items(seq![text@]),
{
    let mut items: Vec<&str> = Vec::new();
    items.push(text);
    assert(items@.map_values(|t: &str| t@) =~= seq![text@]);
    texts_array(&items)
}

fn two_texts(a: &str, b: &str) -> (r: Json)
    ensures
        r@ == text_items(seq![a@, b@]),
{
    let mut items: Vec<&str> = Vec::new();
    items.push(a);
    items.push(b);
    assert(items@.map_values(|t: &str| t@) =~= seq![a@, b@]);
    texts_array(&items)
}

/// The plan's route with a key, a name and an objective.
pub open spec fn route_value(key: Seq<char>, name: Seq<char>, objective: Seq<char>) -> JsonView {
    JsonView::Object(
        seq![
            ("key"@, JsonView::Text(key)),
            ("name"@, JsonView::Text(name)),
            ("objective"@, JsonView::Text(objective)),
        ],
    )
}

fn route(key: &str, name: &str, objective: &str) -> (r: Json)
    ensures
        r@ == route_value(key@, name@, objective@),
{
    let mut members: Vec<(String, Json)> = Vec::new();
    put(&mut members, "key", Json::text(key));
    put(&mut members, "name", Json::text(name));
    put(&mut members, "objective", Json::text(objective));
    let r = Json::Object(members);
    assert(r@->Object_0 =~= route_value(key@, name@, objective@)->Object_0);
    r
}

/// The canned result of work.
pub open spec fn work_value() -> JsonView {
    JsonView::Object(
        seq![
            (
                "message"@,
                JsonView::Text(
                    "Demo mode completed and verified the requested runtime exercise."@,
                ),
            ),
            ("status"@, JsonView::Text("complete"@)),
        ],
    )
}

/// The canned plan.
pub open spec fn plan_value() -> JsonView {
    JsonView::Object(
        seq![
            (
                "acceptance_criteria"@,
                text_items(
                    seq!["Run two independent routes"@, "Preserve the demo evidence boundary"@],
                ),
            ),
            ("deliverable"@, JsonView::Text("A bounded demo synthesis"@)),
            (
                "routes"@,
                JsonView::Array(
                    seq![
                        route_value(
                            "primary"@,
                            "Primary route"@,
                            "Exercise the primary evidence worldline"@,
                        ),
                        route_value(
                            "challenge"@,
                            "Challenge route"@,
                            "Exercise the counterevidence worldline"@,
                        ),
                    ],
                ),
            ),
            (
                "verification_notes"@,
                text_items(seq!["Demo mode validates orchestration, not external evidence"@]),
            ),
        ],
    )
}

/// The canned assessment.
pub open spec fn assess_value() -> JsonView {
    JsonView::Object(
        seq![
            ("complete"@, JsonView::Bool(true)),
            ("contradictions"@, JsonView::Array(Seq::empty())),
            ("follow_ups"@, JsonView::Array(Seq::empty())),
            (
                "rationale"@,
                JsonView::Text(
                    "Both demo routes completed; no evidence-bearing claim is made."@,
                ),
            ),
            (
                "supported_conclusions"@,
                text_items(seq!["The Workflow runtime completed both named routes"@]),
            ),
            (
                "unresolved_gaps"@,
                text_items(seq!["External evidence was not collected in demo mode"@]),
            ),
        ],
    )
}

/// The canned review.
pub open spec fn review_value() -> JsonView {
    JsonView::Object(
        seq![
            ("complete"@, JsonView::Bool(true)),
            (
                "feedback"@,
                JsonView::Text("The draft preserves the demo evidence boundary."@),
            ),
        ],
    )
}

/// The canned value for a named form.
pub open spec fn structured_value(name: Seq<char>) -> JsonView {
    if name == "work_result"@ {
        work_value()
    } else if name == "plan_result"@ {
        plan_value()
    } else if name == "assess_result"@ {
        assess_value()
    } else if name == "review_draft_result"@ {
        review_value()
    } else {
        JsonView::Object(Seq::empty())
    }
}

fn make_work() -> (r: Json)
    ensures
        r@ == work_value(),
{
    let mut members: Vec<(String, Json)> = Vec::new();
    put(
        &mut members,
        "message",
        Json::text("Demo mode completed and verified the requested runtime exercise."),
    );
    put(&mut members, "status", Json::text("complete"));
    let r = Json::Object(members);
    assert(r@->Object_0 =~= work_value()->Object_0);
    r
}

fn make_routes() -> (r: Json)
    ensures
        r@ == JsonView::Array(
            seq![
                route_value(
                    "primary"@,
                    "Primary route"@,
                    "Exercise the primary evidence worldline"@,
                ),
                route_value(
                    "challenge"@,
                    "Challenge route"@,
                    "Exercise the counterevidence worldline"@,
                ),
            ],
        ),
{
    let mut routes: Vec<Json> = Vec::new();
    routes.push(route("primary", "Primary route", "Exercise the primary evidence worldline"));
    routes.push(route("challenge", "Challenge route", "Exercise the counterevidence worldline"));
    assert(crate::json::views(routes@) =~= seq![
        route_value("primary"@, "Primary route"@, "Exercise the primary evidence worldline"@),
        route_value("challenge"@, "Challenge route"@, "Exercise the counterevidence worldline"@),
    ]);
    Json::Array(routes)
}

fn make_plan() -> (r: Json)
    ensures
        r@ == plan_value(),
{
    let mut members: Vec<(String, Json)> = Vec::new();
    put(
        &mut members,
        "acceptance_criteria",
        two_texts("Run two independent routes", "Preserve the demo evidence boundary"),
    );
    put(&mut members, "deliverable", Json::text("A bounded demo synthesis"));
    put(&mut members, "routes", make_routes());
    put(
        &mut members,
        "verification_notes",
        one_text("Demo mode validates orchestration, not external evidence"),
    );
    let r = Json::Object(members);
    assert(r@->Object_0 =~= plan_value()->Object_0);
    r
}

fn no_items() -> (r: Json)
    ensures
        r@ == JsonView::Array(Seq::empty()),
{
    let items: Vec<Json> = Vec::new();
    assert(crate::json::views(items@) =~= Seq::<JsonView>::empty());
    Json::Array(items)
}

fn make_assessment() -> (r: Json)
    ensures
        r@ == assess_value(),
{
    let mut members: Vec<(String, Json)> = Vec::new();
    put(&mut members, "complete", Json::Bool(true));
    put(&mut members, "contradictions", no_items());
    put(&mut members, "follow_ups", no_items());
    put(
        &mut members,
        "rationale",
        Json::text("Both demo routes completed; no evidence-bearing claim is made."),
    );
    put(
        &mut members,
        "supported_conclusions",
        one_text("The Workflow runtime completed both named routes"),
    );
    put(
        &mut members,
        "unresolved_gaps",
        one_text("External evidence was not collected in demo mode"),
    );
    let r = Json::Object(members);
    assert(r@->Object_0 =~= assess_value()->Object_0);
    r
}

fn make_review() -> (r: Json)
    ensures
        r@ == review_value(),
{
    let mut members: Vec<(String, Json)> = Vec::new();
    put(&mut members, "complete", Json::Bool(true));
    put(
        &mut members,
        "feedback",
        Json::text("The draft preserves the demo evidence boundary."),
    );
    let r = Json::Object(members);
    assert(r@->Object_0 =~= review_value()->Object_0);
    r
}

/// The canned value for a named form.
pub fn structured_answer(name: &str) -> (r: Json)
    ensures
        r@ == structured_value(name@),
{
    if same(name, "work_result") {
        make_work()
    } else if same(name, "plan_result") {
        make_plan()
    } else if same(name, "assess_result") {
        make_assessment()
    } else if same(name, "review_draft_result") {
        make_review()
    } else {
        let members: Vec<(String, Json)> = Vec::new();
        assert(crate::json::member_views(members@) =~= Seq::<(Seq<char>, JsonView)>::empty());
        Json::Object(members)
    }
}

/// The canned answer in a named form.
pub fn demo_structured_response(name: &str) -> (r: String)
    ensures
        r@ == json_text(structured_value(name@)),
{
    let value = structured_answer(name);
    value.render()
}

/// The canned Project home.
pub open spec fn project_home() -> Seq<char> {
    "<!DOCTYPE html><html lang=\"en\"><head><meta charset=\"utf-8\"><title>Project overview</title></head><body><header><h1>Project overview</h1><p>Demo mode verifies the Project resource and publication path without claiming evidence-bearing research results.</p></header><section><h2>Next action</h2><p>Run with a configured provider to produce a Project-specific evidence summary.</p></section></body></html>"@
}

/// The events that bring the canned Project home.
pub fn project_home_response() -> (r: Vec<ModelEvent>)
    ensures
        event_views(r@) == seq![
            ModelEventView::OutputTextDelta(project_home()),
            ModelEventView::Completed(
                TokenUsage {
                    input_tokens: 160,
                    output_tokens: 40,
                    cached_input_tokens: 0,
                    cache_write_input_tokens: 0,
                },
            ),
        ],
{
    let usage = TokenUsage {
        input_tokens: 160,
        output_tokens: 40,
        cached_input_tokens: 0,
        cache_write_input_tokens: 0,
    };
    let mut r: Vec<ModelEvent> = Vec::new();
    r.push(
        ModelEvent::OutputTextDelta {
            delta: "<!DOCTYPE html><html lang=\"en\"><head><meta charset=\"utf-8\"><title>Project overview</title></head><body><header><h1>Project overview</h1><p>Demo mode verifies the Project resource and publication path without claiming evidence-bearing research results.</p></header><section><h2>Next action</h2><p>Run with a configured provider to produce a Project-specific evidence summary.</p></section></body></html>".to_owned(),
        },
    );
    r.push(ModelEvent::Completed { usage });
    assert(event_views(r@) =~= seq![
        ModelEventView::OutputTextDelta(project_home()),
        ModelEventView::Completed(usage),
    ]);
    r
}

/// What a canned answer to a question is about: the first line of the question.
pub open spec fn focus(prompt: Seq<char>) -> Seq<char> {
    if lines(prompt).len() > 0 {
        trimmed(lines(prompt)[0])
    } else {
        trimmed("the requested question"@)
    }
}

/// The canned answer to a question.
pub open spec fn research_answer(prompt: Seq<char>) -> Seq<char> {
    "Demo result for **"@ + focus(prompt) + "**\n\n- Observation: this Turn ran through the same Session, model-step, and tool-ready agent loop used in provider mode.\n- Evidence boundary: demo mode does not perform substantive web or file research.\n- Next step: run with a configured Responses-compatible provider for evidence-bearing results."@
}

/// The canned answer to a question.
pub fn demo_research_response(prompt: &str) -> (r: String)
    ensures
        r@ == research_answer(prompt@),
{
    let all = split_lines(prompt);
    let about = if all.len() > 0 {
        assert(texts(all@)[0] == all@[0]@);
        trim(all[0].as_str())
    } else {
        trim("the requested question")
    };
    let mut r = "Demo result for **".to_owned();
    r.append(about.as_str());
    r.append(
        "**\n\n- Observation: this Turn ran through the same Session, model-step, and tool-ready agent loop used in provider mode.\n- Evidence boundary: demo mode does not perform substantive web or file research.\n- Next step: run with a configured Responses-compatible provider for evidence-bearing results.",
    );
    r
}

/// What follows a label on the first line that begins with it.
pub open spec fn labelled(all: Seq<Seq<char>>, label: Seq<char>) -> Option<Seq<char>>
    decreases all.len(),
{
    if all.len() == 0 {
        None
    } else if begins_with(all[0], label) {
        Some(all[0].skip(label.len() as int))
    } else {
        labelled(all.drop_first(), label)
    }
}

/// What a prompt asks for under a label. A prompt that leaves the choice open says so.
pub open spec fn asked_for(
    prompt: Seq<char>,
    label: Seq<char>,
    open_choice: Seq<char>,
    otherwise: Seq<char>,
) -> Seq<char> {
    match labelled(lines(prompt), label) {
        Some(value) => if begins_with(value, open_choice) {
            otherwise
        } else {
            value
        },
        None => otherwise,
    }
}

fn find_labelled(all: &Vec<String>, label: &str) -> (r: Option<String>)
    ensures
        maybe(r) == labelled(texts(all@), label@),
{
    let ghost every = texts(all@);
    let mut i: usize = 0;
    assert(every.skip(0) =~= every);
    while i < all.len()
        invariant
            i <= all@.len(),
            every == texts(all@),
            labelled(every, label@) == labelled(every.skip(i as int), label@),
        decreases all.len() - i,
    {
        assert(every.skip(i as int)[0] == all@[i as int]@);
        match strip_prefix(all[i].as_str(), label) {
            Some(rest) => {
                return Some(rest);
            },
            None => {},
        }
        assert(every.skip(i as int).drop_first() =~= every.skip(i + 1));
        i = i + 1;
    }
    None
}

fn ask(prompt: &str, label: &str, open_choice: &str, otherwise: &str) -> (r: String)
    ensures
        r@ == asked_for(prompt@, label@, open_choice@, otherwise@),
{
    let all = split_lines(prompt);
    match find_labelled(&all, label) {
        Some(value) => {
            if has_prefix(value.as_str(), open_choice) {
                otherwise.to_owned()
            } else {
                value
            }
        },
        None => otherwise.to_owned(),
    }
}

/// The canned workflow program with a slug and a name.
pub open spec fn workflow_text(slug: Seq<char>, name: Seq<char>) -> Seq<char> {
    "version 1;"@ + "\n\nagent EvidenceResearcher {\n    access = model_only;\n    role = \"evidence collection\";\n    system = \"Find concrete support and preserve uncertainty.\";\n    action investigate(question, perspective) {\n        prompt = \"Investigate the question from the requested perspective and report evidence, counterevidence, and limitations.\";\n    }\n}\n\nagent Assessor {\n    access = model_only;\n    role = \"critical synthesis\";\n    system = \"Compare independent findings and keep conclusions bounded.\";\n    action review(question, findings) {\n        prompt = \"Compare the findings and produce a bounded synthesis with explicit disagreements and missing evidence.\";\n    }\n}\n\nworkflow generated {\n    slug = "@
        + debug_text(slug) + ";\n    name = "@ + debug_text(name)
        + ";\n    description = \"Run two independent evidence routes and synthesize their disagreements.\";\n    request = required;\n    params {}\n    run(ctx) {\n        let findings = parallel {\n            primary => {\n                let worker = EvidenceResearcher(key = \"primary\", name = \"Primary evidence\");\n                await worker.investigate(question = ctx.request, perspective = \"primary evidence\")\n            },\n            challenge => {\n                let worker = EvidenceResearcher(key = \"challenge\", name = \"Challenge\");\n                await worker.investigate(question = ctx.request, perspective = \"counterevidence and boundary cases\")\n            },\n        };\n        let assessor = Assessor(key = \"main\", name = \"Review\");\n        let summary = await assessor.review(question = ctx.request, findings = [findings.primary, findings.challenge]);\n        return {summary};\n    }\n}\n"@
}

/// The canned workflow program for a prompt, under the slug and name that the prompt asks for.
pub fn generated_workflow(prompt: &str) -> (r: String)
    ensures
        r@ == workflow_text(
            asked_for(
                prompt@,
                "Requested slug: "@,
                "derive "@,
                "generated-evidence-review"@,
            ),
            asked_for(prompt@, "Requested name: "@, "choose "@, "Generated evidence review"@),
        ),
{
    let name = ask(prompt, "Requested name: ", "choose ", "Generated evidence review");
    let slug = ask(prompt, "Requested slug: ", "derive ", "generated-evidence-review");
    let mut r = "version 1;".to_owned();
    r.append("\n\nagent EvidenceResearcher {\n    access = model_only;\n    role = \"evidence collection\";\n    system = \"Find concrete support and preserve uncertainty.\";\n    action investigate(question, perspective) {\n        prompt = \"Investigate the question from the requested perspective and report evidence, counterevidence, and limitations.\";\n    }\n}\n\nagent Assessor {\n    access = model_only;\n    role = \"critical synthesis\";\n    system = \"Compare independent findings and keep conclusions bounded.\";\n    action review(question, findings) {\n        prompt = \"Compare the findings and produce a bounded synthesis with explicit disagreements and missing evidence.\";\n    }\n}\n\nworkflow generated {\n    slug = ");
    let slug = quoted(slug.as_str());
    r.append(slug.as_str());
    r.append(";\n    name = ");
    let name = quoted(name.as_str());
    r.append(name.as_str());
    r.append(";\n    description = \"Run two independent evidence routes and synthesize their disagreements.\";\n    request = required;\n    params {}\n    run(ctx) {\n        let findings = parallel {\n            primary => {\n                let worker = EvidenceResearcher(key = \"primary\", name = \"Primary evidence\");\n                await worker.investigate(question = ctx.request, perspective = \"primary evidence\")\n            },\n            challenge => {\n                let worker = EvidenceResearcher(key = \"challenge\", name = \"Challenge\");\n                await worker.investigate(question = ctx.request, perspective = \"counterevidence and boundary cases\")\n            },\n        };\n        let assessor = Assessor(key = \"main\", name = \"Review\");\n        let summary = await assessor.review(question = ctx.request, findings = [findings.primary, findings.challenge]);\n        return {summary};\n    }\n}\n");
    r
}

/// The last message of a history, empty where there is none.
pub open spec fn last_message(input: Seq<ItemView>) -> Seq<char>
    decreases input.len(),
{
    if input.len() == 0 {
        Seq::empty()
    } else {
        match input.last() {
            ItemView::Message { content, .. } => content,
            _ => last_message(input.drop_last()),
        }
    }
}

fn find_last_message(input: &Vec<ModelInputItem>) -> (r: String)
    ensures
        r@ == last_message(item_views(input@)),
{
    let ghost all = item_views(input@);
    let mut i: usize = input.len();
    assert(all.take(i as int) =~= all);
    while i > 0
        invariant
            i <= input@.len(),
            all == item_views(input@),
            last_message(all) == last_message(all.take(i as int)),
        decreases i,
    {
        assert(all.take(i as int).last() == input@[i - 1]@);
        if let ModelInputItem::Message { content, .. } = &input[i - 1] {
            return content.clone();
        }
        assert(all.take(i as int).drop_last() =~= all.take(i - 1));
        i = i - 1;
    }
    let r = String::new();
    assert(r@ =~= Seq::<char>::empty());
    r
}

/// The canned answer to a request.
pub open spec fn demo_answer(request: RequestView) -> Seq<char> {
    match request.response_format {
        Some(format) => json_text(structured_value(format.name)),
        None => {
            let prompt = last_message(request.input);
            if occurs(request.instructions, "PaperMachine Workflow Language v1"@) {
                workflow_text(
                    asked_for(
                        prompt,
                        "Requested slug: "@,
                        "derive "@,
                        "generated-evidence-review"@,
                    ),
                    asked_for(
                        prompt,
                        "Requested name: "@,
                        "choose "@,
                        "Generated evidence review"@,
                    ),
                )
            } else {
                research_answer(prompt)
            }
        },
    }
}

/// The events of the canned answer to a request.
pub open spec fn demo_events(request: RequestView) -> Seq<ModelEventView> {
    if occurs(request.instructions, "Maintain the Project home"@) {
        seq![
            ModelEventView::OutputTextDelta(project_home()),
            ModelEventView::Completed(
                TokenUsage {
                    input_tokens: 160,
                    output_tokens: 40,
                    cached_input_tokens: 0,
                    cache_write_input_tokens: 0,
                },
            ),
        ]
    } else {
        completed(demo_answer(request))
    }
}

impl DemoModelClient {
    /// Answers a request.
    pub fn stream(&self, request: &ModelRequest) -> (r: Vec<ModelEvent>)
        ensures
            event_views(r@) == demo_events(request@),
    {
        if contains(request.instructions.as_str(), "Maintain the Project home") {
            return project_home_response();
        }
        if let Some(format) = &request.response_format {
            return completed_text(demo_structured_response(format.name.as_str()));
        }
        let prompt = find_last_message(&request.input);
        let output = if contains(
            request.instructions.as_str(),
            "PaperMachine Workflow Language v1",
        ) {
            generated_workflow(prompt.as_str())
        } else {
            demo_research_response(prompt.as_str())
        };
        completed_text(output)
    }
}

/// Every canned answer is one text, then its end.
pub proof fn law_demo_answers_end(request: RequestView)
    ensures
        demo_events(request).len() == 2,
        demo_events(request)[0] is OutputTextDelta,
        demo_events(request)[1] is Completed,
{
}

} // verus!
