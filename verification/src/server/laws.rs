//! What requests are accepted, and what clients are told.

use crate::json::{alike, as_truth, field, items_field, lookup, text_field, JsonView};
use crate::path::{followed, PathStyle};
use crate::protocol::event::{SessionEvent, SessionEventPayload};
use crate::protocol::ids::ProjectId;
use crate::protocol::session::SessionTriggerKind;
use crate::protocol::workflow::WorkflowRequestMode;
use crate::server::events::{
    artifact_headers_of, live_step_of, update_of, LiveStep, SessionFollower,
};
use crate::server::models::{known, models_fault};
use crate::server::schema::{
    is_among, is_listed, items_fault, member_path, members_fault, missing_key, properties_of,
    says_something, schema_fault, shape_fault, stray_key,
};
use crate::server::sessions::{
    classes, first_stranger, overridden, session_fault, CreateSessionRequest, LoadedProgram,
    NewSession,
};
use crate::server::workspace::{
    candidate_path, dashed, directory_name, forbidden, listed_before, ProjectCatalogEntry,
};
use crate::text::{begins_with, decimal, trimmed, white};
use vstd::prelude::*;

verus! {

proof fn lemma_missing(required: Seq<JsonView>, members: Seq<(Seq<char>, JsonView)>)
    ensures
        missing_key(required, members) is None <==> forall|i: int|
            0 <= i < required.len() ==> ((#[trigger] required[i]) matches JsonView::Text(key)
                ==> lookup(members, key) is Some),
    decreases required.len(),
{
    if required.len() > 0 {
        let rest = required.drop_first();
        lemma_missing(rest, members);
        assert(forall|i: int| 0 <= i < rest.len() ==> rest[i] == required[i + 1]);
        if missing_key(required, members) is None {
            assert forall|i: int| 0 <= i < required.len() implies ((
            #[trigger] required[i]) matches JsonView::Text(key) ==> lookup(members, key) is Some) by {
                if i > 0 {
                    assert(rest[i - 1] == required[i]);
                }
            }
        } else if missing_key(rest, members) is Some {
            let i = choose|i: int|
                0 <= i < rest.len() && !((#[trigger] rest[i]) matches JsonView::Text(key) ==> lookup(
                    members,
                    key,
                ) is Some);
            assert(required[i + 1] == rest[i]);
        }
    }
}

proof fn lemma_stray(
    members: Seq<(Seq<char>, JsonView)>,
    properties: Option<Seq<(Seq<char>, JsonView)>>,
)
    ensures
        stray_key(members, properties) is None <==> forall|i: int|
            0 <= i < members.len() ==> (properties matches Some(p) && lookup(
                p,
                (#[trigger] members[i]).0,
            ) is Some),
    decreases members.len(),
{
    if members.len() > 0 {
        let rest = members.drop_first();
        lemma_stray(rest, properties);
        if stray_key(members, properties) is None {
            assert forall|i: int| 0 <= i < members.len() implies (properties matches Some(p)
                && lookup(p, (#[trigger] members[i]).0) is Some) by {
                if i > 0 {
                    assert(rest[i - 1] == members[i]);
                }
            }
        } else if properties matches Some(p) && lookup(p, members[0].0) is Some {
            let i = choose|i: int|
                0 <= i < rest.len() && !(properties matches Some(p) && lookup(
                    p,
                    (#[trigger] rest[i]).0,
                ) is Some);
            assert(members[i + 1] == rest[i]);
        }
    }
}

/// The schema of a member, where the schema of the object describes it.
pub open spec fn member_schema(schema: JsonView, key: Seq<char>) -> Option<JsonView> {
    match field(schema, "properties"@) {
        Some(properties) => field(properties, key),
        None => None,
    }
}

proof fn lemma_members(
    schema: JsonView,
    members: Seq<(Seq<char>, JsonView)>,
    path: Seq<char>,
    n: nat,
)
    requires
        n <= members.len(),
    ensures
        members_fault(schema, members, path, n) is None <==> forall|i: int|
            0 <= i < n ==> (member_schema(schema, (#[trigger] members[i]).0) matches Some(child)
                ==> schema_fault(child, members[i].1, member_path(path, members[i].0)) is None),
    decreases n,
{
    if n > 0 {
        lemma_members(schema, members, path, (n - 1) as nat);
        assert(members[n - 1] == (members[n - 1].0, members[n - 1].1));
    }
}

proof fn lemma_items(schema: JsonView, items: Seq<JsonView>, path: Seq<char>, n: nat)
    requires
        n <= items.len(),
    ensures
        items_fault(schema, items, path, n) is None <==> forall|i: int|
            0 <= i < n ==> (field(schema, "items"@) matches Some(child) ==> schema_fault(
                child,
                #[trigger] items[i],
                crate::server::schema::item_path(path, i),
            ) is None),
    decreases n,
{
    if n > 0 {
        lemma_items(schema, items, path, (n - 1) as nat);
    }
}

/// An object meets a schema of objects exactly if it is among the values that the schema lists, where it
/// lists any; has every key that the schema requires; has no key that the schema does not describe, where
/// the schema allows no others; and each of its members meets what the schema says of it.
pub proof fn law_which_objects_are_accepted(
    schema: JsonView,
    members: Seq<(Seq<char>, JsonView)>,
    path: Seq<char>,
)
    requires
        text_field(schema, "type"@) == Some("object"@),
    ensures
        schema_fault(schema, JsonView::Object(members), path) is None <==> {
            &&& items_field(schema, "enum"@) matches Some(allowed) ==> exists|i: int|
                0 <= i < allowed.len() && alike(#[trigger] allowed[i], JsonView::Object(members))
            &&& items_field(schema, "required"@) matches Some(required) ==> (forall|i: int|
                0 <= i < required.len() ==> ((#[trigger] required[i]) matches JsonView::Text(key)
                    ==> lookup(members, key) is Some))
            &&& field(schema, "additionalProperties"@) == Some(JsonView::Bool(false)) ==> (forall|
                i: int,
            |
                0 <= i < members.len() ==> (field(schema, "properties"@) matches Some(
                    JsonView::Object(p),
                ) && lookup(p, (#[trigger] members[i]).0) is Some))
            &&& forall|i: int|
                0 <= i < members.len() ==> (member_schema(
                    schema,
                    (#[trigger] members[i]).0,
                ) matches Some(child) ==> schema_fault(
                    child,
                    members[i].1,
                    member_path(path, members[i].0),
                ) is None)
        },
{
    let value = JsonView::Object(members);
    lemma_says(schema);
    if let Some(required) = items_field(schema, "required"@) {
        lemma_missing(required, members);
    }
    lemma_stray(members, properties_of(schema));
    lemma_members(schema, members, path, members.len());
    if let Some(allowed) = items_field(schema, "enum"@) {
        assert(is_listed(schema, value) <==> is_among(allowed, value));
    }
    let closed = match field(schema, "additionalProperties"@) {
        Some(v) => as_truth(v) == Some(false),
        None => false,
    };
    assert(closed <==> field(schema, "additionalProperties"@) == Some(JsonView::Bool(false)));
    if is_listed(schema, value) {
        assert(schema_fault(schema, value, path) == (match shape_fault(schema, members, path) {
            Some(fault) => Some(fault),
            None => members_fault(schema, members, path, members.len()),
        }));
    }
    if closed {
        if stray_key(members, properties_of(schema)) is None {
            assert forall|i: int| 0 <= i < members.len() implies (field(
                schema,
                "properties"@,
            ) matches Some(JsonView::Object(p)) && lookup(p, (#[trigger] members[i]).0) is Some) by {
                assert(properties_of(schema) matches Some(p) && lookup(p, members[i].0) is Some);
            }
        } else {
            let i = choose|i: int|
                0 <= i < members.len() && !(properties_of(schema) matches Some(p) && lookup(
                    p,
                    (#[trigger] members[i]).0,
                ) is Some);
            assert(members[i] == members[i]);
        }
    }
}

proof fn lemma_says(schema: JsonView)
    ensures
        text_field(schema, "type"@) is Some || items_field(schema, "enum"@) is Some
            ==> says_something(schema),
{
    if schema is Object && schema->Object_0.len() == 0 {
        assert(lookup(schema->Object_0, "type"@) is None);
        assert(lookup(schema->Object_0, "enum"@) is None);
    }
}

/// A list meets a schema of lists exactly if it is among the values that the schema lists, where it
/// lists any, and each of its items meets what the schema says of each.
pub proof fn law_which_lists_are_accepted(schema: JsonView, items: Seq<JsonView>, path: Seq<char>)
    requires
        text_field(schema, "type"@) == Some("array"@),
    ensures
        schema_fault(schema, JsonView::Array(items), path) is None <==> {
            &&& items_field(schema, "enum"@) matches Some(allowed) ==> exists|i: int|
                0 <= i < allowed.len() && alike(#[trigger] allowed[i], JsonView::Array(items))
            &&& field(schema, "items"@) matches Some(child) ==> forall|i: int|
                0 <= i < items.len() ==> schema_fault(
                    child,
                    #[trigger] items[i],
                    crate::server::schema::item_path(path, i),
                ) is None
        },
{
    lemma_says(schema);
    lemma_items(schema, items, path, items.len());
    reveal_strlit("array");
    reveal_strlit("object");
    assert("array"@.len() == 5 && "object"@.len() == 6);
    let value = JsonView::Array(items);
    if let Some(allowed) = items_field(schema, "enum"@) {
        assert(is_listed(schema, value) <==> is_among(allowed, value));
    }
    if is_listed(schema, value) {
        assert(schema_fault(schema, value, path) == items_fault(
            schema,
            items,
            path,
            items.len(),
        ));
    }
}

/// A value of the wrong kind is refused, and a plain value of the right kind is accepted where the schema
/// lists no values. What says no type accepts every kind.
pub proof fn law_kinds_are_checked(schema: JsonView, value: JsonView, path: Seq<char>)
    ensures
        text_field(schema, "type"@) == Some("object"@) && !(value is Object) ==> schema_fault(
            schema,
            value,
            path,
        ) is Some,
        text_field(schema, "type"@) == Some("array"@) && !(value is Array) ==> schema_fault(
            schema,
            value,
            path,
        ) is Some,
        items_field(schema, "enum"@) is None ==> {
            let ok = schema_fault(schema, value, path) is None;
            &&& text_field(schema, "type"@) == Some("string"@) ==> (ok <==> value is Text)
            &&& text_field(schema, "type"@) == Some("integer"@) ==> (ok <==> value is Integer)
            &&& text_field(schema, "type"@) == Some("number"@) ==> (ok <==> value is Integer
                || value is Decimal)
            &&& text_field(schema, "type"@) == Some("boolean"@) ==> (ok <==> value is Bool)
            &&& text_field(schema, "type"@) == Some("null"@) ==> (ok <==> value is Null)
            &&& text_field(schema, "type"@) is None ==> ok
        },
        items_field(schema, "enum"@) matches Some(allowed) ==> {
            &&& schema_fault(schema, value, path) is None ==> exists|i: int|
                0 <= i < allowed.len() && alike(#[trigger] allowed[i], value)
            &&& text_field(schema, "type"@) is None && (exists|i: int|
                0 <= i < allowed.len() && alike(#[trigger] allowed[i], value)) ==> schema_fault(
                schema,
                value,
                path,
            ) is None
        },
{
    lemma_says(schema);
    reveal_strlit("object");
    reveal_strlit("array");
    reveal_strlit("string");
    reveal_strlit("integer");
    reveal_strlit("number");
    reveal_strlit("boolean");
    reveal_strlit("null");
    assert("object"@.len() == 6 && "array"@.len() == 5 && "string"@.len() == 6 && "integer"@.len()
        == 7 && "number"@.len() == 6 && "boolean"@.len() == 7 && "null"@.len() == 4);
    assert("object"@[0] == 'o' && "string"@[0] == 's' && "number"@[0] == 'n' && "integer"@[0] == 'i'
        && "boolean"@[0] == 'b');
    if let Some(allowed) = items_field(schema, "enum"@) {
        assert(is_listed(schema, value) <==> is_among(allowed, value));
    }
}

proof fn lemma_property_models(
    models: Seq<Seq<char>>,
    schema: JsonView,
    value: JsonView,
    properties: Seq<(Seq<char>, JsonView)>,
    n: nat,
)
    requires
        field(schema, "properties"@) == Some(JsonView::Object(properties)),
        n <= properties.len(),
    ensures
        crate::server::models::properties_fault(models, schema, value, n) is None <==> forall|i: int|
            0 <= i < n ==> (field(value, (#[trigger] properties[i]).0) matches Some(v)
                ==> models_fault(models, properties[i].1, v) is None),
    decreases n,
{
    if n > 0 {
        lemma_property_models(models, schema, value, properties, (n - 1) as nat);
        assert(properties[n - 1] == (properties[n - 1].0, properties[n - 1].1));
    }
}

proof fn lemma_item_models(
    models: Seq<Seq<char>>,
    schema: JsonView,
    items: Seq<JsonView>,
    n: nat,
)
    requires
        n <= items.len(),
    ensures
        crate::server::models::items_fault(models, schema, items, n) is None <==> forall|i: int|
            0 <= i < n ==> (field(schema, "items"@) matches Some(child) ==> models_fault(
                models,
                child,
                #[trigger] items[i],
            ) is None),
    decreases n,
{
    if n > 0 {
        lemma_item_models(models, schema, items, (n - 1) as nat);
    }
}

/// Parameters name only models that are known exactly if the value itself does, where the schema asks for
/// a model there; every member that the schema describes does; and every item of a list does.
pub proof fn law_every_named_model_is_known(
    models: Seq<Seq<char>>,
    schema: JsonView,
    value: JsonView,
    properties: Seq<(Seq<char>, JsonView)>,
)
    requires
        field(schema, "properties"@) == Some(JsonView::Object(properties)) || (field(
            schema,
            "properties"@,
        ) is None && properties.len() == 0),
    ensures
        models_fault(models, schema, value) is None <==> {
            &&& text_field(schema, "format"@) == Some("model-profile"@) ==> (value
                matches JsonView::Text(t) ==> trimmed(t).len() == 0 || models.contains(trimmed(t)))
            &&& forall|i: int|
                0 <= i < properties.len() ==> (field(value, (#[trigger] properties[i]).0) matches Some(
                    v,
                ) ==> models_fault(models, properties[i].1, v) is None)
            &&& value matches JsonView::Array(items) ==> (field(schema, "items"@) matches Some(child)
                ==> forall|i: int|
                0 <= i < items.len() ==> models_fault(models, child, #[trigger] items[i]) is None)
        },
{
    if field(schema, "properties"@) is Some {
        lemma_property_models(models, schema, value, properties, properties.len());
    }
    if let JsonView::Array(items) = value {
        lemma_item_models(models, schema, items, items.len());
    }
}

/// The models that can be named are the configured profiles, and the default alone where there are none.
pub proof fn law_which_models_are_known(
    default_model: Seq<char>,
    profiles: Seq<crate::model::router::ModelProfile>,
    i: int,
)
    ensures
        profiles.len() == 0 ==> known(default_model, profiles) == seq![default_model],
        0 <= i < profiles.len() ==> known(default_model, profiles).contains(profiles[i].id@),
        profiles.len() > 0 ==> known(default_model, profiles).len() == profiles.len(),
{
    if 0 <= i < profiles.len() {
        assert(known(default_model, profiles)[i] == profiles[i].id@);
    }
}

proof fn lemma_strangers(names: Seq<Seq<char>>, known: Seq<Seq<char>>)
    ensures
        first_stranger(names, known) is None <==> forall|i: int|
            0 <= i < names.len() ==> known.contains(#[trigger] names[i]),
    decreases names.len(),
{
    if names.len() > 0 {
        let rest = names.drop_first();
        lemma_strangers(rest, known);
        if first_stranger(names, known) is None {
            assert forall|i: int| 0 <= i < names.len() implies known.contains(
                #[trigger] names[i],
            ) by {
                if i > 0 {
                    assert(names[i] == rest[i - 1]);
                }
            }
        } else if known.contains(names[0]) {
            let i = choose|i: int| 0 <= i < rest.len() && !known.contains(#[trigger] rest[i]);
            assert(names[i + 1] == rest[i]);
        }
    }
}

/// A Session can be started exactly if its model is known, its program is there, it has a task where the
/// program asks for one and none where it does not, every class whose access it changes is declared, and
/// its parameters meet the program's schema and name only models that are known. Only a program that is
/// missing is answered as not found.
pub proof fn law_which_sessions_start(
    request: CreateSessionRequest,
    models: Seq<Seq<char>>,
    program: Option<LoadedProgram>,
)
    ensures
        session_fault(request, models, program) is None <==> {
            &&& trimmed(request.model@).len() > 0
            &&& models.contains(trimmed(request.model@))
            &&& program matches Some(p) && {
                let manifest = p.snapshot.manifest;
                let task = match request.request {
                    Some(r) => trimmed(r@),
                    None => Seq::empty(),
                };
                &&& manifest.request_mode == WorkflowRequestMode::Required <==> task.len() > 0
                &&& forall|i: int|
                    0 <= i < request.agent_access_overrides@.len() ==> declares(
                        p,
                        (#[trigger] request.agent_access_overrides@[i]).0@,
                    )
                &&& schema_fault(manifest.params_schema@, request.params@, "params"@) is None
                &&& models_fault(models, manifest.params_schema@, request.params@) is None
            }
        },
        session_fault(request, models, program) matches Some(fault) ==> (fault.0 == 404 <==> program
            is None && models.contains(trimmed(request.model@)) && trimmed(request.model@).len()
            > 0) && (fault.0 == 404 || fault.0 == 400),
{
    if let Some(p) = program {
        let names = overridden(request.agent_access_overrides@);
        lemma_strangers(names, classes(p.agents@));
        assert forall|name: Seq<char>| #[trigger] declares(p, name) <==> classes(
            p.agents@,
        ).contains(name) by {
            if declares(p, name) {
                let i = choose|i: int|
                    0 <= i < p.agents@.len() && (#[trigger] p.agents@[i]).class_name@ == name;
                assert(classes(p.agents@)[i] == name);
            }
            if classes(p.agents@).contains(name) {
                let i = choose|i: int|
                    0 <= i < classes(p.agents@).len() && classes(p.agents@)[i] == name;
                assert(p.agents@[i].class_name@ == name);
            }
        }
        assert(forall|i: int|
            0 <= i < request.agent_access_overrides@.len() ==> names[i] == (
            #[trigger] request.agent_access_overrides@[i]).0@);
        if first_stranger(names, classes(p.agents@)) is None {
            assert forall|i: int| 0 <= i < request.agent_access_overrides@.len() implies declares(
                p,
                (#[trigger] request.agent_access_overrides@[i]).0@,
            ) by {
                assert(classes(p.agents@).contains(names[i]));
            }
        } else {
            let i = choose|i: int|
                0 <= i < names.len() && !classes(p.agents@).contains(#[trigger] names[i]);
            assert(names[i] == request.agent_access_overrides@[i].0@);
            assert(!declares(p, request.agent_access_overrides@[i].0@));
        }
    }
}

/// Whether a program declares a class of Agents.
pub open spec fn declares(program: LoadedProgram, class: Seq<char>) -> bool {
    exists|i: int|
        0 <= i < program.agents@.len() && (#[trigger] program.agents@[i]).class_name@ == class
}

/// A Session is the one that was asked for: in its Project, with its program, task, parameters, model and
/// access. It says which Session a person started it from.
pub proof fn law_sessions_are_as_asked(
    session: NewSession,
    project: ProjectId,
    request: CreateSessionRequest,
    program: LoadedProgram,
)
    requires
        session.is_asked_for(project, request, program),
    ensures
        session.project_id == project,
        session.program == program.snapshot,
        request.request matches Some(r) ==> session.request@ == trimmed(r@),
        request.request is None ==> session.request@.len() == 0,
        session.params == request.params,
        session.access == request.access,
        session.default_model@ == trimmed(request.model@),
        session.instructions@ == trimmed(request.instructions@),
        session.enabled_skills == request.enabled_skills,
        session.agent_access_overrides == request.agent_access_overrides,
        session.trigger.source_session_id == request.source_session_id,
        session.trigger.kind == SessionTriggerKind::User <==> request.source_session_id is Some,
        request.title matches Some(t) ==> (trimmed(t@).len() > 0 ==> session.title@ == trimmed(t@)),
        (request.title matches Some(t) ==> trimmed(t@).len() == 0) ==> session.title@
            == program.snapshot.manifest.name@,
{
}

/// A client that follows a Session is sent the events of that Session and no other's. Those that are not
/// stored are always sent, and where events were lost it is told so.
pub proof fn law_followers_get_their_events(follower: SessionFollower, event: SessionEvent)
    ensures
        live_step_of(follower, None) == LiveStep::Resync,
        event.session_id != follower.session_id ==> live_step_of(follower, Some(event))
            == LiveStep::Skip,
        event.session_id == follower.session_id && event.sequence == 0 ==> live_step_of(
            follower,
            Some(event),
        ) == LiveStep::Send,
        event.session_id == follower.session_id && event.sequence > follower.high_watermark
            ==> live_step_of(follower, Some(event)) == LiveStep::Send,
        0 < event.sequence <= follower.high_watermark ==> live_step_of(follower, Some(event))
            == LiveStep::Skip,
{
}

/// With an event goes what it changed: the Session where the event tells of it, of its Agents, of its
/// usage or of a question to a person; the Turn where that began or changed; the step that a model or a
/// tool took; the Agent that was created; the question; the action and its attempt. All are those of the
/// event, and nothing else goes with it.
pub proof fn law_events_bring_what_they_changed(event: SessionEvent)
    ensures
        ({
            let parts = update_of(event);
            let p = event.payload;
            &&& parts.session == Some(event.session_id) || parts.session is None
            &&& parts.session is Some <==> p is SessionCreated || p is SessionChanged || p
                is AgentCreated || p is UsageUpdated || p is HumanRequestOpened || p
                is HumanRequestResolved
            &&& p is TurnCreated || p is TurnStatusChanged ==> parts.turn == event.turn_id
            &&& !(p is TurnCreated || p is TurnStatusChanged) ==> parts.turn is None
            &&& p is ModelStepStarted || p is ModelStepCompleted || p is ModelStepFailed || p
                is ToolCallStarted || p is ToolCallCompleted || p is HostedToolCompleted
                ==> parts.step == event.step_id
            &&& !(p is ModelStepStarted || p is ModelStepCompleted || p is ModelStepFailed || p
                is ToolCallStarted || p is ToolCallCompleted || p is HostedToolCompleted)
                ==> parts.step is None
            &&& p is AgentCreated ==> parts.agent == event.agent_id
            &&& !(p is AgentCreated) ==> parts.agent is None
            &&& p matches SessionEventPayload::HumanRequestOpened { human_request_id, .. }
                ==> parts.human_request == Some(human_request_id)
            &&& p matches SessionEventPayload::HumanRequestResolved { human_request_id }
                ==> parts.human_request == Some(human_request_id)
            &&& p matches SessionEventPayload::ActionChanged {
                action_invocation_id,
                action_attempt_id,
                ..
            } ==> parts.action == Some(action_invocation_id) && parts.attempt == action_attempt_id
            &&& !(p is ActionChanged) ==> parts.action is None && parts.attempt is None
        }),
{
}

/// A file is sent with its type, and no browser guesses another. Only a page is sent with a policy, and
/// under it nothing of the page runs.
pub proof fn law_pages_run_nothing(media_type: Seq<char>)
    ensures
        ({
            let headers = artifact_headers_of(media_type);
            let policy = (
                "content-security-policy"@,
                "sandbox; default-src 'none'; style-src 'unsafe-inline'; img-src data:"@,
            );
            &&& headers.contains(("x-content-type-options"@, "nosniff"@))
            &&& headers.contains(("cache-control"@, "private, max-age=31536000, immutable"@))
            &&& begins_with(media_type, "text/html"@) ==> headers.contains(policy)
            &&& headers.len() == (if begins_with(media_type, "text/html"@) {
                4int
            } else {
                3
            })
            &&& crate::model::http::header_text(media_type) ==> headers.contains(
                ("content-type"@, media_type),
            )
        }),
{
    let headers = artifact_headers_of(media_type);
    assert(headers[1] == ("x-content-type-options"@, "nosniff"@));
    assert(headers[headers.len() - 1] == (
        "cache-control"@,
        "private, max-age=31536000, immutable"@,
    ));
    if begins_with(media_type, "text/html"@) {
        assert(headers[2] == (
            "content-security-policy"@,
            "sandbox; default-src 'none'; style-src 'unsafe-inline'; img-src data:"@,
        ));
    }
    assert(headers[0].0 == "content-type"@);
    if crate::model::http::header_text(media_type) {
        assert(headers[0] == ("content-type"@, media_type));
    }
}

proof fn lemma_plain_stays(s: Seq<char>)
    requires
        forall|i: int| 0 <= i < s.len() ==> !forbidden(#[trigger] s[i]),
    ensures
        dashed(s) == s,
    decreases s.len(),
{
    if s.len() > 0 {
        assert(forall|i: int| 0 <= i < s.drop_last().len() ==> s.drop_last()[i] == s[i]);
        lemma_plain_stays(s.drop_last());
        assert(s.drop_last().push(s.last()) =~= s);
    } else {
        assert(dashed(s) =~= s);
    }
}

/// A Project whose name is a plain one has a directory of just that name: a name of at most eighty
/// characters, none of which a file system refuses, that begins and ends with neither white space nor a
/// dot nor a dash.
pub proof fn law_plain_names_stay(project: Seq<char>)
    requires
        0 < project.len() <= 80,
        trimmed(project) == project,
        forall|i: int| 0 <= i < project.len() ==> !forbidden(#[trigger] project[i]),
        !white(project[0]) && project[0] != '.' && project[0] != '-',
        !white(project.last()) && project.last() != '.' && project.last() != '-',
    ensures
        directory_name(project) == project,
{
    lemma_plain_stays(project);
}

/// The first directory that is tried for a Project has its name; the others have a number behind it.
pub proof fn law_directories_are_numbered(
    style: PathStyle,
    root: Seq<char>,
    project: Seq<char>,
    index: u64,
)
    ensures
        candidate_path(style, root, project, 1) == followed(style, root, directory_name(project)),
        index != 1 ==> candidate_path(style, root, project, index) == followed(
            style,
            root,
            directory_name(project) + " "@ + decimal(index as nat),
        ),
{
}

/// A dash stands for each run of characters that a name cannot hold: none is left, no character that it
/// can hold is lost, and a run makes one dash.
pub proof fn law_runs_become_dashes(s: Seq<char>, c: char)
    ensures
        !forbidden(c) ==> dashed(s.push(c)) == dashed(s).push(c),
        forbidden(c) ==> dashed(s.push(c)).len() > 0 && dashed(s.push(c)).last() == '-',
        forbidden(c) && dashed(s).len() > 0 && dashed(s).last() == '-' ==> dashed(s.push(c))
            == dashed(s),
        forbidden(c) && !(dashed(s).len() > 0 && dashed(s).last() == '-') ==> dashed(s.push(c))
            == dashed(s).push('-'),
        dashed(Seq::empty()) == Seq::<char>::empty(),
{
    assert(s.push(c).drop_last() =~= s);
}

/// The characters that no name of a directory holds: separators, what other systems refuse, and control
/// characters.
pub proof fn law_which_characters_are_refused(c: char)
    ensures
        c == '/' || c == '\\' || c == ':' || c == '*' || c == '?' || c == '"' || c == '<' || c == '>'
            || c == '|' || c == '\n' || c == '\t' || c == '\0' ==> forbidden(c),
        c == ' ' || c == '-' || c == '_' || c == '.' || ('a' <= c && c <= 'z') || ('A' <= c && c
            <= 'Z') || ('0' <= c && c <= '9') ==> !forbidden(c),
{
}

/// Of two Projects the one that changed later is listed first, to the nanosecond.
pub proof fn law_the_latest_project_is_first(a: ProjectCatalogEntry, b: ProjectCatalogEntry)
    ensures
        a.project.updated_at.seconds > b.project.updated_at.seconds ==> listed_before(a, b)
            && !listed_before(b, a),
        a.project.updated_at.seconds == b.project.updated_at.seconds
            && a.project.updated_at.nanoseconds > b.project.updated_at.nanoseconds ==> listed_before(
            a,
            b,
        ) && !listed_before(b, a),
        a.project.updated_at == b.project.updated_at && a.project.id.0 < b.project.id.0
            ==> listed_before(a, b) && !listed_before(b, a),
{
}

} // verus!
