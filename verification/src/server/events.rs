//! The events that clients follow, and the files that they read.

use crate::json::{group_json, put, Json, JsonView};
use crate::model::http::{header_text, header_views, is_header_value};
use crate::protocol::event::{SessionEvent, SessionEventPayload};
use crate::protocol::ids::{
    ActionAttemptId, ActionInvocationId, AgentId, HumanRequestId, ProjectId, SessionId, StepId,
    TurnId,
};
use crate::text::{begins_with, decimal, has_prefix, maybe, number};
use vstd::prelude::*;

verus! {

broadcast use group_json;

/// The name that an event goes by.
pub open spec fn event_name(payload: SessionEventPayload) -> Seq<char> {
    match payload {
        SessionEventPayload::SessionCreated { .. } => "session_created"@,
        SessionEventPayload::SessionChanged { .. } => "session_changed"@,
        SessionEventPayload::AgentCreated { .. } => "agent_created"@,
        SessionEventPayload::ActionChanged { .. } => "action_changed"@,
        SessionEventPayload::HumanRequestOpened { .. } => "human_request_opened"@,
        SessionEventPayload::HumanRequestResolved { .. } => "human_request_resolved"@,
        SessionEventPayload::AgentInputQueued { .. } => "agent_input_queued"@,
        SessionEventPayload::AgentInputApplied { .. } => "agent_input_applied"@,
        SessionEventPayload::UsageUpdated { .. } => "usage_updated"@,
        SessionEventPayload::TurnCreated => "turn_created"@,
        SessionEventPayload::TurnStatusChanged { .. } => "turn_status_changed"@,
        SessionEventPayload::AssistantMessageDelta { .. } => "assistant_message_delta"@,
        SessionEventPayload::AssistantMessageReset => "assistant_message_reset"@,
        SessionEventPayload::AssistantMessageCompleted => "assistant_message_completed"@,
        SessionEventPayload::ModelStepStarted => "model_step_started"@,
        SessionEventPayload::ModelStepCompleted => "model_step_completed"@,
        SessionEventPayload::ModelStepFailed => "model_step_failed"@,
        SessionEventPayload::ToolCallStarted => "tool_call_started"@,
        SessionEventPayload::ToolCallCompleted => "tool_call_completed"@,
        SessionEventPayload::HostedToolCompleted => "hosted_tool_completed"@,
        SessionEventPayload::ContextTrimmed { .. } => "context_trimmed"@,
        SessionEventPayload::ContextCompacted { .. } => "context_compacted"@,
        SessionEventPayload::SamplingRetry { .. } => "sampling_retry"@,
        SessionEventPayload::Warning { .. } => "warning"@,
    }
}

/// The name that an event goes by.
pub fn event_type(payload: &SessionEventPayload) -> (r: &'static str)
    ensures
        r@ == event_name(*payload),
{
    match payload {
        SessionEventPayload::SessionCreated { .. } => "session_created",
        SessionEventPayload::SessionChanged { .. } => "session_changed",
        SessionEventPayload::AgentCreated { .. } => "agent_created",
        SessionEventPayload::ActionChanged { .. } => "action_changed",
        SessionEventPayload::HumanRequestOpened { .. } => "human_request_opened",
        SessionEventPayload::HumanRequestResolved { .. } => "human_request_resolved",
        SessionEventPayload::AgentInputQueued { .. } => "agent_input_queued",
        SessionEventPayload::AgentInputApplied { .. } => "agent_input_applied",
        SessionEventPayload::UsageUpdated { .. } => "usage_updated",
        SessionEventPayload::TurnCreated => "turn_created",
        SessionEventPayload::TurnStatusChanged { .. } => "turn_status_changed",
        SessionEventPayload::AssistantMessageDelta { .. } => "assistant_message_delta",
        SessionEventPayload::AssistantMessageReset => "assistant_message_reset",
        SessionEventPayload::AssistantMessageCompleted => "assistant_message_completed",
        SessionEventPayload::ModelStepStarted => "model_step_started",
        SessionEventPayload::ModelStepCompleted => "model_step_completed",
        SessionEventPayload::ModelStepFailed => "model_step_failed",
        SessionEventPayload::ToolCallStarted => "tool_call_started",
        SessionEventPayload::ToolCallCompleted => "tool_call_completed",
        SessionEventPayload::HostedToolCompleted => "hosted_tool_completed",
        SessionEventPayload::ContextTrimmed { .. } => "context_trimmed",
        SessionEventPayload::ContextCompacted { .. } => "context_compacted",
        SessionEventPayload::SamplingRetry { .. } => "sampling_retry",
        SessionEventPayload::Warning { .. } => "warning",
    }
}

/// What is read from the store and sent along with an event.
#[derive(Clone, Copy, Debug, PartialEq, Eq, Structural)]
pub struct UpdateParts {
    pub session: Option<SessionId>,
    pub turn: Option<TurnId>,
    pub step: Option<StepId>,
    pub agent: Option<AgentId>,
    pub human_request: Option<HumanRequestId>,
    pub action: Option<ActionInvocationId>,
    pub attempt: Option<ActionAttemptId>,
}

/// Whether an event tells of the state of its Session.
pub open spec fn tells_of_session(payload: SessionEventPayload) -> bool {
    match payload {
        SessionEventPayload::SessionCreated { .. }
        | SessionEventPayload::SessionChanged { .. }
        | SessionEventPayload::AgentCreated { .. }
        | SessionEventPayload::UsageUpdated { .. }
        | SessionEventPayload::HumanRequestOpened { .. }
        | SessionEventPayload::HumanRequestResolved { .. } => true,
        _ => false,
    }
}

/// Whether an event tells of the state of its Turn.
pub open spec fn tells_of_turn(payload: SessionEventPayload) -> bool {
    payload is TurnCreated || payload is TurnStatusChanged
}

/// Whether an event tells of the state of its step.
pub open spec fn tells_of_step(payload: SessionEventPayload) -> bool {
    match payload {
        SessionEventPayload::ModelStepStarted
        | SessionEventPayload::ModelStepCompleted
        | SessionEventPayload::ModelStepFailed
        | SessionEventPayload::ToolCallStarted
        | SessionEventPayload::ToolCallCompleted
        | SessionEventPayload::HostedToolCompleted => true,
        _ => false,
    }
}

/// What is sent along with an event.
pub open spec fn update_of(event: SessionEvent) -> UpdateParts {
    UpdateParts {
        session: if tells_of_session(event.payload) {
            Some(event.session_id)
        } else {
            None
        },
        turn: if tells_of_turn(event.payload) {
            event.turn_id
        } else {
            None
        },
        step: if tells_of_step(event.payload) {
            event.step_id
        } else {
            None
        },
        agent: if event.payload is AgentCreated {
            event.agent_id
        } else {
            None
        },
        human_request: match event.payload {
            SessionEventPayload::HumanRequestOpened { human_request_id, .. } => Some(
                human_request_id,
            ),
            SessionEventPayload::HumanRequestResolved { human_request_id } => Some(
                human_request_id,
            ),
            _ => None,
        },
        action: match event.payload {
            SessionEventPayload::ActionChanged { action_invocation_id, .. } => Some(
                action_invocation_id,
            ),
            _ => None,
        },
        attempt: match event.payload {
            SessionEventPayload::ActionChanged { action_attempt_id, .. } => action_attempt_id,
            _ => None,
        },
    }
}

/// What is to be sent along with an event.
pub fn update_parts(event: &SessionEvent) -> (r: UpdateParts)
    ensures
        r == update_of(*event),
{
    let session = match &event.payload {
        SessionEventPayload::SessionCreated { .. }
        | SessionEventPayload::SessionChanged { .. }
        | SessionEventPayload::AgentCreated { .. }
        | SessionEventPayload::UsageUpdated { .. }
        | SessionEventPayload::HumanRequestOpened { .. }
        | SessionEventPayload::HumanRequestResolved { .. } => Some(event.session_id),
        _ => None,
    };
    let turn = match &event.payload {
        SessionEventPayload::TurnCreated | SessionEventPayload::TurnStatusChanged { .. } => {
            event.turn_id
        },
        _ => None,
    };
    let step = match &event.payload {
        SessionEventPayload::ModelStepStarted
        | SessionEventPayload::ModelStepCompleted
        | SessionEventPayload::ModelStepFailed
        | SessionEventPayload::ToolCallStarted
        | SessionEventPayload::ToolCallCompleted
        | SessionEventPayload::HostedToolCompleted => event.step_id,
        _ => None,
    };
    let agent = match &event.payload {
        SessionEventPayload::AgentCreated { .. } => event.agent_id,
        _ => None,
    };
    let human_request = match &event.payload {
        SessionEventPayload::HumanRequestOpened { human_request_id, .. } => Some(*human_request_id),
        SessionEventPayload::HumanRequestResolved { human_request_id } => Some(*human_request_id),
        _ => None,
    };
    let (action, attempt) = match &event.payload {
        SessionEventPayload::ActionChanged { action_invocation_id, action_attempt_id, .. } => {
            (Some(*action_invocation_id), *action_attempt_id)
        },
        _ => (None, None),
    };
    UpdateParts { session, turn, step, agent, human_request, action, attempt }
}

/// The mark by which a client asks for what follows an event. Events that are not stored have
/// none.
pub fn event_mark(sequence: u64) -> (r: Option<String>)
    ensures
        maybe(r) == (if sequence > 0 {
            Some(decimal(sequence as nat))
        } else {
            None
        }),
{
    if sequence > 0 {
        Some(number(sequence))
    } else {
        None
    }
}

/// What is sent where events were lost: that everything is to be read anew.
pub fn resync_update(event_type: &str) -> (r: Json)
    ensures
        r@ == JsonView::Object(seq![("type"@, JsonView::Text(event_type@))]),
{
    let mut members: Vec<(String, Json)> = Vec::new();
    put(&mut members, "type", Json::text(event_type));
    let r = Json::Object(members);
    assert(r@->Object_0 =~= seq![("type"@, JsonView::Text(event_type@))]);
    r
}

/// What happens to an event that has just occurred.
#[derive(Clone, Copy, Debug, PartialEq, Eq, Structural)]
pub enum LiveStep {
    Send,
    Skip,
    /// Events were lost: the client is told to read everything anew.
    Resync,
}

/// A client that follows a Session: the events that it was sent from the store, and those that
/// occur meanwhile.
#[derive(Clone, Copy, Debug, PartialEq, Eq, Structural)]
pub struct SessionFollower {
    pub session_id: SessionId,
    /// The last event that was sent from the store.
    pub high_watermark: u64,
}

/// The last of some stored events.
pub open spec fn watermark(after: u64, replay: Seq<SessionEvent>) -> u64 {
    if replay.len() == 0 {
        after
    } else {
        replay.last().sequence
    }
}

/// What happens to an event that has just occurred, or was lost.
pub open spec fn live_step_of(
    follower: SessionFollower,
    event: Option<SessionEvent>,
) -> LiveStep {
    match event {
        None => LiveStep::Resync,
        Some(e) => if e.session_id == follower.session_id && (e.sequence == 0 || e.sequence
            > follower.high_watermark) {
            LiveStep::Send
        } else {
            LiveStep::Skip
        },
    }
}

impl SessionFollower {
    /// A client that follows a Session from a mark on, and is sent the stored events behind it.
    pub fn new(session_id: SessionId, after: u64, replay: &Vec<SessionEvent>) -> (r: SessionFollower)
        ensures
            r.session_id == session_id,
            r.high_watermark == watermark(after, replay@),
    {
        let n: usize = replay.len();
        let high_watermark = if n == 0 {
            after
        } else {
            replay[n - 1].sequence
        };
        SessionFollower { session_id, high_watermark }
    }

    /// What happens to an event that has just occurred, or was lost.
    pub fn live_step(&self, event: Option<&SessionEvent>) -> (r: LiveStep)
        ensures
            r == live_step_of(
                *self,
                match event {
                    Some(e) => Some(*e),
                    None => None,
                },
            ),
    {
        match event {
            None => LiveStep::Resync,
            Some(e) => {
                if e.session_id == self.session_id && (e.sequence == 0 || e.sequence
                    > self.high_watermark) {
                    LiveStep::Send
                } else {
                    LiveStep::Skip
                }
            },
        }
    }
}

/// The order in which a store hands out the events of a Session behind a mark.
pub open spec fn stored_after(replay: Seq<SessionEvent>, session: SessionId, after: u64) -> bool {
    &&& forall|i: int|
        0 <= i < replay.len() ==> (#[trigger] replay[i]).session_id == session && replay[i].sequence
            > after
    &&& forall|i: int, j: int|
        0 <= i < j < replay.len() ==> (#[trigger] replay[i]).sequence < (
        #[trigger] replay[j]).sequence
}

/// A stored event is sent once: one that was sent from the store is not sent again when it is
/// reported as new.
pub proof fn law_no_event_is_sent_twice(
    session: SessionId,
    after: u64,
    replay: Seq<SessionEvent>,
    i: int,
    event: SessionEvent,
)
    requires
        stored_after(replay, session, after),
        0 <= i < replay.len(),
        event.session_id == session,
        event.sequence == replay[i].sequence,
    ensures
        live_step_of(
            SessionFollower { session_id: session, high_watermark: watermark(after, replay) },
            Some(event),
        ) == LiveStep::Skip,
{
    let last = replay.len() - 1;
    if i < last {
        assert(replay[i].sequence < replay[last].sequence);
    }
}

/// No event is missed: one that follows all that were sent from the store is sent when it occurs.
pub proof fn law_no_event_is_missed(
    session: SessionId,
    after: u64,
    replay: Seq<SessionEvent>,
    event: SessionEvent,
)
    requires
        stored_after(replay, session, after),
        event.session_id == session,
        event.sequence > after,
        forall|i: int| 0 <= i < replay.len() ==> (#[trigger] replay[i]).sequence < event.sequence,
    ensures
        live_step_of(
            SessionFollower { session_id: session, high_watermark: watermark(after, replay) },
            Some(event),
        ) == LiveStep::Send,
{
    if replay.len() > 0 {
        assert(replay[replay.len() - 1].sequence < event.sequence);
    }
}

/// What happens to an event for a client that follows a Project.
#[derive(Clone, Copy, Debug, PartialEq, Eq, Structural)]
pub enum ProjectStep {
    /// The Session is read, and sent if it is one of the Project.
    Load(SessionId),
    Skip,
    /// Events were lost: the client is told to read everything anew.
    Resync,
}

/// What happens to an event for a client that follows a Project: Sessions that began or changed are
/// told of.
pub fn project_step(event: Option<&SessionEvent>) -> (r: ProjectStep)
    ensures
        r == (match event {
            None => ProjectStep::Resync,
            Some(e) => if e.payload is SessionCreated || e.payload is SessionChanged {
                ProjectStep::Load(e.session_id)
            } else {
                ProjectStep::Skip
            },
        }),
{
    match event {
        None => ProjectStep::Resync,
        Some(e) => match &e.payload {
            SessionEventPayload::SessionCreated { .. } => ProjectStep::Load(e.session_id),
            SessionEventPayload::SessionChanged { .. } => ProjectStep::Load(e.session_id),
            _ => ProjectStep::Skip,
        },
    }
}

/// Whether a Session that was read is told of to a client that follows a Project.
pub fn is_of_project(session_project: Option<ProjectId>, project: ProjectId) -> (r: bool)
    ensures
        r == (session_project == Some(project)),
{
    match session_project {
        Some(p) => p == project,
        None => false,
    }
}

/// The type that a file is sent with.
pub open spec fn content_type(media_type: Seq<char>) -> Seq<char> {
    if header_text(media_type) {
        media_type
    } else {
        "application/octet-stream"@
    }
}

/// The headers that a file of a Session is sent with. A page is sent such that a browser runs and
/// loads nothing of it.
pub open spec fn artifact_headers_of(media_type: Seq<char>) -> Seq<(Seq<char>, Seq<char>)> {
    seq![
        ("content-type"@, content_type(media_type)),
        ("x-content-type-options"@, "nosniff"@),
    ] + (if begins_with(media_type, "text/html"@) {
        seq![
            (
                "content-security-policy"@,
                "sandbox; default-src 'none'; style-src 'unsafe-inline'; img-src data:"@,
            ),
        ]
    } else {
        Seq::empty()
    }) + seq![("cache-control"@, "private, max-age=31536000, immutable"@)]
}

/// The headers that a file of a Session is sent with.
pub fn artifact_headers(media_type: &str) -> (r: Vec<(String, String)>)
    ensures
        header_views(r@) == artifact_headers_of(media_type@),
{
    let mut r: Vec<(String, String)> = Vec::new();
    let value = if is_header_value(media_type) {
        media_type.to_owned()
    } else {
        "application/octet-stream".to_owned()
    };
    r.push(("content-type".to_owned(), value));
    r.push(("x-content-type-options".to_owned(), "nosniff".to_owned()));
    if has_prefix(media_type, "text/html") {
        r.push(
            (
                "content-security-policy".to_owned(),
                "sandbox; default-src 'none'; style-src 'unsafe-inline'; img-src data:".to_owned(),
            ),
        );
    }
    r.push(("cache-control".to_owned(), "private, max-age=31536000, immutable".to_owned()));
    assert(header_views(r@) =~= artifact_headers_of(media_type@));
    r
}

} // verus!
