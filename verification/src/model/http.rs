//! Requests over HTTP: which are tried again, over which transport they go, and how their answers
//! are read.

use crate::model::error::{ModelError, ModelErrorView};
use crate::model::responses::{
    event_of, parse_event_data, OpenAiPromptCacheMode, OpenAiResponsesConfig,
};
use crate::model::sessions::{
    found, fresh, removed, uses_fallback, TimedEntry, TimedTable, SOCKET_FALLBACK_TTL,
};
use crate::model::websocket::{cache_key_of, prompt_cache_key};
use crate::protocol::model::{
    ModelEvent, ModelEventView, ModelRequest, ModelRequestMetadata, ModelTransport, PromptCacheMode,
    PromptCacheStrategy, RequestView,
};
use crate::text::{decimal, is_blank, maybe, maybe_str, number, trimmed};
use vstd::prelude::*;

verus! {

/// How often the wait before another attempt doubles.
pub open spec fn doublings(attempt: u32) -> nat {
    if attempt <= 1 {
        0
    } else if attempt <= 5 {
        (attempt - 1) as nat
    } else {
        4
    }
}

/// How many milliseconds to wait before an attempt: a second, twice as long for each attempt
/// before, up to sixteen, and up to half a second more by the clock.
pub open spec fn retry_delay(attempt: u32, clock_millis: Option<u32>) -> int {
    1000 * vstd::arithmetic::power2::pow2(doublings(attempt)) + match clock_millis {
        Some(millis) => millis as int % 501,
        None => 0,
    }
}

/// Finds how many milliseconds to wait before an attempt, given the milliseconds of the clock's
/// second where it can be read.
pub fn request_retry_delay(attempt: u32, clock_millis: Option<u32>) -> (r: u64)
    ensures
        r == retry_delay(attempt, clock_millis),
{
    proof {
        vstd::arithmetic::power2::lemma2_to64();
    }
    let base: u64 = if attempt <= 1 {
        1000
    } else if attempt == 2 {
        2000
    } else if attempt == 3 {
        4000
    } else if attempt == 4 {
        8000
    } else {
        16000
    };
    let jitter: u64 = match clock_millis {
        Some(millis) => (millis % 501) as u64,
        None => 0,
    };
    base + jitter
}

/// The wait before an attempt lies between a second and sixteen and a half.
pub proof fn law_retry_delays_are_bounded(attempt: u32, clock_millis: Option<u32>)
    ensures
        1000 <= retry_delay(attempt, clock_millis) <= 16500,
{
    vstd::arithmetic::power2::lemma2_to64();
}

/// How an attempt at a request went.
#[derive(Debug)]
pub enum AttemptOutcome {
    Answered(u16),
    Failed(String),
    TimedOut,
}

/// What is known of an error answer's body.
#[derive(Debug)]
pub enum ErrorBody {
    Read(String),
    Unreadable,
    TimedOut,
}

/// What follows an attempt.
#[derive(Debug)]
pub enum AttemptStep {
    /// The answer is good.
    Accept,
    /// The answer is an error, of which the body is to be read.
    ReadError(u16),
    /// The request is to be sent again, as this attempt.
    Retry(u32),
    Fail(ModelError),
}

/// The mathematical value of an [`AttemptStep`].
pub ghost enum AttemptView {
    Accept,
    ReadError(u16),
    Retry(u32),
    Fail(ModelErrorView),
}

impl View for AttemptStep {
    type V = AttemptView;

    open spec fn view(&self) -> AttemptView {
        match *self {
            AttemptStep::Accept => AttemptView::Accept,
            AttemptStep::ReadError(status) => AttemptView::ReadError(status),
            AttemptStep::Retry(attempt) => AttemptView::Retry(attempt),
            AttemptStep::Fail(error) => AttemptView::Fail(error@),
        }
    }
}

/// Whether an answer is good.
pub open spec fn is_success(status: u16) -> bool {
    200 <= status < 300
}

/// Whether an error may pass.
pub open spec fn may_pass(status: u16) -> bool {
    status == 429 || 500 <= status < 600
}

/// Another attempt, where there may be one.
pub open spec fn again_or(attempt: u32, max: u32, error: ModelErrorView) -> AttemptView {
    if attempt < max {
        AttemptView::Retry((attempt + 1) as u32)
    } else {
        AttemptView::Fail(error)
    }
}

/// What follows an attempt that went some way.
pub open spec fn after_attempt(
    outcome: AttemptOutcome,
    attempt: u32,
    max: u32,
    timeout_seconds: u64,
) -> AttemptView {
    match outcome {
        AttemptOutcome::Answered(status) => if is_success(status) {
            AttemptView::Accept
        } else {
            AttemptView::ReadError(status)
        },
        AttemptOutcome::Failed(error) => again_or(attempt, max, ModelErrorView::Transport(error@)),
        AttemptOutcome::TimedOut => again_or(
            attempt,
            max,
            ModelErrorView::Transport(
                "provider response headers timed out after "@ + decimal(timeout_seconds as nat)
                    + " seconds"@,
            ),
        ),
    }
}

/// What an error answer says.
pub open spec fn body_text(body: ErrorBody) -> Seq<char> {
    match body {
        ErrorBody::Read(text) => text@,
        ErrorBody::Unreadable => "unable to read provider response"@,
        ErrorBody::TimedOut => "timed out reading provider error response"@,
    }
}

/// What follows an error answer.
pub open spec fn after_error(status: u16, body: ErrorBody, attempt: u32, max: u32) -> AttemptView {
    let error = ModelErrorView::Http { status, message: body_text(body) };
    if may_pass(status) {
        again_or(attempt, max, error)
    } else {
        AttemptView::Fail(error)
    }
}

/// Words followed by a number of seconds.
pub(crate) fn seconds_message(prefix: &str, seconds: u64) -> (r: String)
    ensures
        r@ == prefix@ + decimal(seconds as nat) + " seconds"@,
{
    let mut message = prefix.to_owned();
    let n = number(seconds);
    message.append(n.as_str());
    message.append(" seconds");
    message
}

/// Decides what follows an attempt at a request.
pub fn attempt_step(
    outcome: AttemptOutcome,
    attempt: u32,
    max_request_retries: u32,
    request_timeout_seconds: u64,
) -> (r: AttemptStep)
    ensures
        r@ == after_attempt(outcome, attempt, max_request_retries, request_timeout_seconds),
{
    match outcome {
        AttemptOutcome::Answered(status) => {
            if status >= 200 && status < 300 {
                AttemptStep::Accept
            } else {
                AttemptStep::ReadError(status)
            }
        },
        AttemptOutcome::Failed(error) => {
            if attempt < max_request_retries {
                AttemptStep::Retry(attempt + 1)
            } else {
                AttemptStep::Fail(ModelError::Transport(error))
            }
        },
        AttemptOutcome::TimedOut => {
            if attempt < max_request_retries {
                AttemptStep::Retry(attempt + 1)
            } else {
                AttemptStep::Fail(
                    ModelError::Transport(
                        seconds_message(
                            "provider response headers timed out after ",
                            request_timeout_seconds,
                        ),
                    ),
                )
            }
        },
    }
}

/// Decides what follows an error answer.
pub fn error_step(status: u16, body: ErrorBody, attempt: u32, max_request_retries: u32) -> (r:
    AttemptStep)
    ensures
        r@ == after_error(status, body, attempt, max_request_retries),
{
    let message = match body {
        ErrorBody::Read(text) => text,
        ErrorBody::Unreadable => "unable to read provider response".to_owned(),
        ErrorBody::TimedOut => "timed out reading provider error response".to_owned(),
    };
    if (status == 429 || status >= 500 && status < 600) && attempt < max_request_retries {
        AttemptStep::Retry(attempt + 1)
    } else {
        AttemptStep::Fail(ModelError::Http { status, message })
    }
}

/// Each retry is one attempt more, and none goes beyond the number that there may be.
pub proof fn law_request_retries_are_bounded(
    outcome: AttemptOutcome,
    status: u16,
    body: ErrorBody,
    attempt: u32,
    max: u32,
    timeout_seconds: u64,
)
    ensures
        after_attempt(outcome, attempt, max, timeout_seconds) matches AttemptView::Retry(next)
            ==> next == attempt + 1 && next <= max,
        after_error(status, body, attempt, max) matches AttemptView::Retry(next) ==> next == attempt
            + 1 && next <= max && may_pass(status),
{
}

/// The error of a request that is not tried again has the status of its answer.
pub proof fn law_lasting_errors_fail_at_once(status: u16, body: ErrorBody, attempt: u32, max: u32)
    requires
        !may_pass(status),
    ensures
        after_error(status, body, attempt, max) == AttemptView::Fail(
            ModelErrorView::Http { status, message: body_text(body) },
        ),
{
}

/// What comes of an event stream.
#[derive(Debug)]
pub enum SseMessage {
    Data(String),
    Broken(String),
    Ended,
    Idle,
}

/// What is to be done about a message of an event stream.
#[derive(Debug)]
pub enum SseStep {
    Wait,
    Tell(ModelEvent),
    /// Tells an error. Nothing more is read where `last`.
    Fail { error: ModelError, last: bool },
    End,
}

/// The mathematical value of an [`SseStep`].
pub ghost enum SseView {
    Wait,
    Tell(ModelEventView),
    Fail { error: ModelErrorView, last: bool },
    End,
}

impl View for SseStep {
    type V = SseView;

    open spec fn view(&self) -> SseView {
        match *self {
            SseStep::Wait => SseView::Wait,
            SseStep::Tell(event) => SseView::Tell(event@),
            SseStep::Fail { error, last } => SseView::Fail { error: error@, last },
            SseStep::End => SseView::End,
        }
    }
}

/// What is to be done about a message of a Responses stream.
pub open spec fn sse_message(message: SseMessage, idle_seconds: u64) -> SseView {
    match message {
        SseMessage::Data(data) => match event_of(data@) {
            Ok(Some(event)) => SseView::Tell(event),
            Ok(None) => SseView::Wait,
            Err(error) => SseView::Fail { error, last: false },
        },
        SseMessage::Broken(e) => SseView::Fail { error: ModelErrorView::Stream(e@), last: true },
        SseMessage::Ended => SseView::End,
        SseMessage::Idle => SseView::Fail {
            error: ModelErrorView::Stream(
                "provider stream was idle for "@ + decimal(idle_seconds as nat) + " seconds"@,
            ),
            last: true,
        },
    }
}

/// Reads a message of a Responses stream.
pub fn sse_step(message: SseMessage, idle_seconds: u64) -> (r: SseStep)
    ensures
        r@ == sse_message(message, idle_seconds),
{
    match message {
        SseMessage::Data(data) => match parse_event_data(data.as_str()) {
            Ok(Some(event)) => SseStep::Tell(event),
            Ok(None) => SseStep::Wait,
            Err(error) => SseStep::Fail { error, last: false },
        },
        SseMessage::Broken(e) => SseStep::Fail { error: ModelError::Stream(e), last: true },
        SseMessage::Ended => SseStep::End,
        SseMessage::Idle => SseStep::Fail {
            error: ModelError::Stream(
                seconds_message("provider stream was idle for ", idle_seconds),
            ),
            last: true,
        },
    }
}

/// What is told of a request over HTTP.
pub open spec fn http_told(
    metadata: ModelRequestMetadata,
    provider: Seq<char>,
    request: RequestView,
    mode: PromptCacheMode,
    fallback_reason: Option<Seq<char>>,
) -> bool {
    &&& maybe(metadata.provider) == Some(provider)
    &&& metadata.api is None
    &&& metadata.model_profile is None
    &&& maybe(metadata.upstream_model) == Some(request.model)
    &&& metadata.transport == ModelTransport::HttpSse
    &&& metadata.prompt_cache_mode == mode
    &&& maybe(metadata.prompt_cache_key) == cache_key_of(request)
    &&& metadata.prompt_cache_breakpoint == (mode == PromptCacheMode::Explicit)
    &&& !metadata.used_previous_response_id
    &&& maybe(metadata.continuation_miss_reason) == Some("http_transport"@)
    &&& maybe(metadata.websocket_fallback_reason) == fallback_reason
}

/// Says what is told of a request over HTTP.
pub fn http_metadata(
    request: &ModelRequest,
    config: &OpenAiResponsesConfig,
    prompt_cache_mode: PromptCacheMode,
    websocket_fallback_reason: Option<String>,
) -> (r: ModelRequestMetadata)
    ensures
        http_told(
            r,
            config.provider_id@,
            request@,
            prompt_cache_mode,
            maybe(websocket_fallback_reason),
        ),
{
    ModelRequestMetadata {
        provider: Some(config.provider_id.clone()),
        api: None,
        model_profile: None,
        upstream_model: Some(request.model.clone()),
        transport: ModelTransport::HttpSse,
        prompt_cache_mode,
        prompt_cache_key: prompt_cache_key(request),
        prompt_cache_breakpoint: prompt_cache_mode == PromptCacheMode::Explicit,
        used_previous_response_id: false,
        continuation_miss_reason: Some("http_transport".to_owned()),
        websocket_fallback_reason,
    }
}

/// The transport over which a request goes first.
#[derive(Debug)]
pub enum TransportChoice {
    /// A connection of its session.
    Socket(String),
    /// HTTP, with the reason for which the session goes without a connection.
    Http(Option<String>),
}

/// The mathematical value of a [`TransportChoice`].
pub ghost enum ChoiceView {
    Socket(Seq<char>),
    Http(Option<Seq<char>>),
}

impl View for TransportChoice {
    type V = ChoiceView;

    open spec fn view(&self) -> ChoiceView {
        match *self {
            TransportChoice::Socket(key) => ChoiceView::Socket(key@),
            TransportChoice::Http(reason) => ChoiceView::Http(maybe(reason)),
        }
    }
}

/// The transport over which a request of a session goes first.
pub open spec fn chosen_transport(
    websockets: bool,
    key: Option<Seq<char>>,
    failed: Seq<TimedEntry<()>>,
    now: u64,
) -> ChoiceView {
    match key {
        None => ChoiceView::Http(None),
        Some(key) => if found(fresh(failed, now, SOCKET_FALLBACK_TTL), key).is_some() {
            ChoiceView::Http(Some("session_in_http_fallback_ttl"@))
        } else if websockets {
            ChoiceView::Socket(key)
        } else {
            ChoiceView::Http(None)
        },
    }
}

/// Chooses the transport over which a request goes first. A session whose connection failed a
/// short while ago goes over HTTP.
pub fn choose_transport(
    request: &ModelRequest,
    config: &OpenAiResponsesConfig,
    fallbacks: &mut TimedTable<()>,
    now: u64,
) -> (r: TransportChoice)
    requires
        old(fallbacks).wf(),
    ensures
        final(fallbacks).wf(),
        final(fallbacks).entries@ == (if request@.transport_session_key is Some {
            fresh(old(fallbacks).entries@, now, SOCKET_FALLBACK_TTL)
        } else {
            old(fallbacks).entries@
        }),
        r@ == chosen_transport(
            config.responses_websockets,
            request@.transport_session_key,
            old(fallbacks).entries@,
            now,
        ),
{
    match &request.transport_session_key {
        None => TransportChoice::Http(None),
        Some(key) => {
            if uses_fallback(fallbacks, key.as_str(), now) {
                TransportChoice::Http(Some("session_in_http_fallback_ttl".to_owned()))
            } else if config.responses_websockets {
                TransportChoice::Socket(key.clone())
            } else {
                TransportChoice::Http(None)
            }
        },
    }
}

/// Notes that a session's connection failed, and says why the request goes over HTTP.
pub fn fall_back(
    fallbacks: &mut TimedTable<()>,
    session_key: String,
    error: &ModelError,
    now: u64,
) -> (r: String)
    requires
        old(fallbacks).wf(),
    ensures
        final(fallbacks).wf(),
        final(fallbacks).entries@ == removed(old(fallbacks).entries@, session_key@).push(
            (TimedEntry { key: session_key, used: now, value: () }),
        ),
        r@ == error@.message(),
{
    fallbacks.insert(session_key, now, ());
    error.message()
}

/// Forgets a session: its connection is handed back to be closed.
pub fn close_transport_session<S>(
    sessions: &mut TimedTable<S>,
    fallbacks: &mut TimedTable<()>,
    session_key: &str,
) -> (r: Option<S>)
    requires
        old(sessions).wf(),
        old(fallbacks).wf(),
    ensures
        final(sessions).wf(),
        final(fallbacks).wf(),
        final(sessions).entries@ == removed(old(sessions).entries@, session_key@),
        final(fallbacks).entries@ == removed(old(fallbacks).entries@, session_key@),
        r == found(old(sessions).entries@, session_key@),
{
    let state = sessions.take(session_key);
    fallbacks.take(session_key);
    state
}

/// The key of a request's session, which a connection needs.
pub fn socket_session_key(request: &ModelRequest) -> (r: Result<String, ModelError>)
    ensures
        match r {
            Ok(key) => request@.transport_session_key == Some(key@),
            Err(e) => request@.transport_session_key is None && e@
                == ModelErrorView::Configuration("missing transport session key"@),
        },
{
    match &request.transport_session_key {
        Some(key) => Ok(key.clone()),
        None => Err(ModelError::Configuration("missing transport session key".to_owned())),
    }
}

/// Whether a provider takes cache marks.
#[derive(Clone, Copy, Debug, PartialEq, Eq, Structural)]
pub enum PromptCacheCapability {
    Supported,
    Unsupported,
    Indeterminate,
}

/// The mode that a request asks for.
pub open spec fn asked_mode(
    strategy: Option<PromptCacheStrategy>,
    configured: OpenAiPromptCacheMode,
) -> OpenAiPromptCacheMode {
    match strategy {
        None => OpenAiPromptCacheMode::Implicit,
        Some(PromptCacheStrategy::Implicit) => OpenAiPromptCacheMode::Implicit,
        Some(PromptCacheStrategy::Explicit) => OpenAiPromptCacheMode::Explicit,
        Some(PromptCacheStrategy::Auto) => configured,
    }
}

/// Finds the mode that a request asks for.
pub fn configured_cache_mode(
    request: &ModelRequest,
    config: &OpenAiResponsesConfig,
) -> (r: OpenAiPromptCacheMode)
    ensures
        r == asked_mode(
            match request@.prompt_cache {
                Some(cache) => Some(cache.1),
                None => None,
            },
            config.prompt_cache_mode,
        ),
{
    match &request.prompt_cache {
        None => OpenAiPromptCacheMode::Implicit,
        Some(cache) => match cache.strategy {
            PromptCacheStrategy::Implicit => OpenAiPromptCacheMode::Implicit,
            PromptCacheStrategy::Explicit => OpenAiPromptCacheMode::Explicit,
            PromptCacheStrategy::Auto => config.prompt_cache_mode,
        },
    }
}

/// Chooses the mode of a request. What the provider can do matters only where the choice is left
/// to it, and marks are sent only where it is known to take them.
pub fn resolve_prompt_cache_mode(
    asked: OpenAiPromptCacheMode,
    capability: PromptCacheCapability,
) -> (r: PromptCacheMode)
    ensures
        r == (match asked {
            OpenAiPromptCacheMode::Implicit => PromptCacheMode::Implicit,
            OpenAiPromptCacheMode::Explicit => PromptCacheMode::Explicit,
            OpenAiPromptCacheMode::Auto => if capability == PromptCacheCapability::Supported {
                PromptCacheMode::Explicit
            } else {
                PromptCacheMode::Implicit
            },
        }),
{
    match asked {
        OpenAiPromptCacheMode::Implicit => PromptCacheMode::Implicit,
        OpenAiPromptCacheMode::Explicit => PromptCacheMode::Explicit,
        OpenAiPromptCacheMode::Auto => match capability {
            PromptCacheCapability::Supported => PromptCacheMode::Explicit,
            PromptCacheCapability::Unsupported => PromptCacheMode::Implicit,
            PromptCacheCapability::Indeterminate => PromptCacheMode::Implicit,
        },
    }
}

/// What the marked probe shows by its status, where it was answered. Nothing yet, where the probe
/// without marks has to be sent too.
pub fn marked_probe_result(status: Option<u16>) -> (r: Option<PromptCacheCapability>)
    ensures
        r == (match status {
            None => Some(PromptCacheCapability::Indeterminate),
            Some(status) => if is_success(status) {
                Some(PromptCacheCapability::Supported)
            } else if status == 401 || status == 403 || status == 429 {
                Some(PromptCacheCapability::Indeterminate)
            } else {
                None
            },
        }),
{
    match status {
        None => Some(PromptCacheCapability::Indeterminate),
        Some(status) => {
            if status >= 200 && status < 300 {
                Some(PromptCacheCapability::Supported)
            } else if status == 401 || status == 403 || status == 429 {
                Some(PromptCacheCapability::Indeterminate)
            } else {
                None
            }
        },
    }
}

/// What the probe without marks shows by its status, once the marked one was refused.
pub fn control_probe_result(status: Option<u16>) -> (r: PromptCacheCapability)
    ensures
        r == (match status {
            Some(status) => if is_success(status) {
                PromptCacheCapability::Unsupported
            } else {
                PromptCacheCapability::Indeterminate
            },
            None => PromptCacheCapability::Indeterminate,
        }),
{
    match status {
        Some(status) => {
            if status >= 200 && status < 300 {
                PromptCacheCapability::Unsupported
            } else {
                PromptCacheCapability::Indeterminate
            }
        },
        None => PromptCacheCapability::Indeterminate,
    }
}

/// Whether a character may stand in the value of a header.
pub open spec fn header_char(c: char) -> bool {
    (c as u32 >= 32 && c as u32 != 127) || c == '\t'
}

/// Whether a text is the value of a header.
pub open spec fn header_text(s: Seq<char>) -> bool {
    forall|i: int| 0 <= i < s.len() ==> header_char(#[trigger] s[i])
}

/// Whether a text may be sent as the value of a header.
pub fn is_header_value(s: &str) -> (r: bool)
    ensures
        r == header_text(s@),
{
    let n = s.unicode_len();
    let mut i: usize = 0;
    while i < n
        invariant
            i <= n,
            n == s@.len(),
            forall|k: int| 0 <= k < i ==> header_char(#[trigger] s@[k]),
        decreases n - i,
    {
        let c = s.get_char(i);
        if !((c as u32 >= 32 && c as u32 != 127) || c == '\t') {
            assert(!header_char(s@[i as int]));
            return false;
        }
        i = i + 1;
    }
    true
}

/// Headers as names and values.
pub open spec fn header_views(headers: Seq<(String, String)>) -> Seq<(Seq<char>, Seq<char>)> {
    Seq::new(headers.len(), |i: int| (headers[i].0@, headers[i].1@))
}

/// A header that only some configurations have.
pub open spec fn header_if(name: Seq<char>, value: Option<Seq<char>>) -> Seq<
    (Seq<char>, Seq<char>),
> {
    match value {
        Some(value) => seq![(name, value)],
        None => Seq::empty(),
    }
}

/// The headers of every request of a client.
pub open spec fn account_headers(organization: Option<Seq<char>>, project: Option<Seq<char>>) -> Seq<
    (Seq<char>, Seq<char>),
> {
    seq![("user-agent"@, "papermachine/0.1"@)] + header_if("OpenAI-Organization"@, organization)
        + header_if("OpenAI-Project"@, project)
}

/// Whether a client's settings can be sent as headers.
pub open spec fn sendable(value: Option<Seq<char>>) -> bool {
    match value {
        Some(value) => header_text(value),
        None => true,
    }
}

/// What is wrong with a client's settings.
pub open spec fn client_fault(
    blank_key: Seq<char>,
    api_key: Seq<char>,
    organization: Option<Seq<char>>,
    project: Option<Seq<char>>,
) -> Option<Seq<char>> {
    if trimmed(api_key).len() == 0 {
        Some(blank_key)
    } else if !sendable(organization) || !sendable(project) {
        Some("failed to parse header value"@)
    } else {
        None
    }
}

fn put_header(headers: &mut Vec<(String, String)>, name: &str, value: &Option<String>) -> (r: Result<
    (),
    ModelError,
>)
    ensures
        match r {
            Ok(()) => sendable(maybe(*value)) && header_views(final(headers)@) == header_views(
                old(headers)@,
            ) + header_if(name@, maybe(*value)),
            Err(e) => !sendable(maybe(*value)) && e@ == ModelErrorView::Configuration(
                "failed to parse header value"@,
            ),
        },
{
    match value {
        Some(value) => {
            if !is_header_value(value.as_str()) {
                return Err(ModelError::Configuration("failed to parse header value".to_owned()));
            }
            headers.push((name.to_owned(), value.clone()));
            assert(header_views(headers@) =~= header_views(old(headers)@) + header_if(
                name@,
                Some(value@),
            ));
        },
        None => {
            assert(header_views(headers@) =~= header_views(old(headers)@) + header_if(name@, None));
        },
    }
    Ok(())
}

/// Makes the headers of every request of a client, given what is said of a blank key.
pub fn client_headers(
    blank_key: &str,
    api_key: &str,
    organization: &Option<String>,
    project: &Option<String>,
) -> (r: Result<Vec<(String, String)>, ModelError>)
    ensures
        match r {
            Ok(headers) => client_fault(
                blank_key@,
                api_key@,
                maybe(*organization),
                maybe(*project),
            ) is None && header_views(headers@) == account_headers(
                maybe(*organization),
                maybe(*project),
            ),
            Err(e) => client_fault(blank_key@, api_key@, maybe(*organization), maybe(*project))
                matches Some(fault) && e@ == ModelErrorView::Configuration(fault),
        },
{
    if is_blank(api_key) {
        return Err(ModelError::Configuration(blank_key.to_owned()));
    }
    let mut headers: Vec<(String, String)> = Vec::new();
    headers.push(("user-agent".to_owned(), "papermachine/0.1".to_owned()));
    assert(header_views(headers@) =~= seq![("user-agent"@, "papermachine/0.1"@)]);
    match put_header(&mut headers, "OpenAI-Organization", organization) {
        Ok(()) => {},
        Err(e) => {
            return Err(e);
        },
    }
    match put_header(&mut headers, "OpenAI-Project", project) {
        Ok(()) => {},
        Err(e) => {
            return Err(e);
        },
    }
    Ok(headers)
}

/// The value of the header that names the key.
pub open spec fn bearer(api_key: Seq<char>) -> Seq<char> {
    "Bearer "@ + api_key
}

/// The headers of a new connection.
pub open spec fn socket_header_list(
    api_key: Seq<char>,
    session_key: Seq<char>,
    organization: Option<Seq<char>>,
    project: Option<Seq<char>>,
) -> Seq<(Seq<char>, Seq<char>)> {
    seq![
        ("authorization"@, bearer(api_key)),
        ("user-agent"@, "papermachine/0.1"@),
        ("OpenAI-Beta"@, "responses_websockets=2026-02-06"@),
    ] + header_if(
        "x-client-request-id"@,
        if header_text(session_key) {
            Some(session_key)
        } else {
            None
        },
    ) + header_if("OpenAI-Organization"@, organization) + header_if("OpenAI-Project"@, project)
}

/// Makes the headers of a new connection. A session key that cannot be sent is left out.
pub fn socket_headers(config: &OpenAiResponsesConfig, session_key: &str) -> (r: Result<
    Vec<(String, String)>,
    ModelError,
>)
    ensures
        match r {
            Ok(headers) => header_text(bearer(config.api_key@)) && sendable(
                maybe(config.organization),
            ) && sendable(maybe(config.project)) && header_views(headers@) == socket_header_list(
                config.api_key@,
                session_key@,
                maybe(config.organization),
                maybe(config.project),
            ),
            Err(e) => !(header_text(bearer(config.api_key@)) && sendable(
                maybe(config.organization),
            ) && sendable(maybe(config.project))) && e@ == ModelErrorView::Configuration(
                "failed to parse header value"@,
            ),
        },
{
    let mut headers: Vec<(String, String)> = Vec::new();
    let mut authorization = "Bearer ".to_owned();
    authorization.append(config.api_key.as_str());
    if !is_header_value(authorization.as_str()) {
        return Err(ModelError::Configuration("failed to parse header value".to_owned()));
    }
    headers.push(("authorization".to_owned(), authorization));
    headers.push(("user-agent".to_owned(), "papermachine/0.1".to_owned()));
    headers.push(("OpenAI-Beta".to_owned(), "responses_websockets=2026-02-06".to_owned()));
    let ghost known = seq![
        ("authorization"@, bearer(config.api_key@)),
        ("user-agent"@, "papermachine/0.1"@),
        ("OpenAI-Beta"@, "responses_websockets=2026-02-06"@),
    ];
    assert(header_views(headers@) =~= known);
    if is_header_value(session_key) {
        headers.push(("x-client-request-id".to_owned(), session_key.to_owned()));
    }
    let ghost request_id = if header_text(session_key@) {
        Some(session_key@)
    } else {
        None
    };
    assert(header_views(headers@) =~= known + header_if("x-client-request-id"@, request_id));
    match put_header(&mut headers, "OpenAI-Organization", &config.organization) {
        Ok(()) => {},
        Err(e) => {
            return Err(e);
        },
    }
    match put_header(&mut headers, "OpenAI-Project", &config.project) {
        Ok(()) => {},
        Err(e) => {
            return Err(e);
        },
    }
    Ok(headers)
}

/// Says that a connection could not be made.
pub fn handshake_error(error: Option<&str>) -> (r: ModelError)
    ensures
        r@ == ModelErrorView::Transport(
            match maybe_str(error) {
                Some(e) => "Responses WebSocket handshake failed: "@ + e,
                None => "Responses WebSocket handshake timed out after "@ + decimal(20)
                    + " seconds"@,
            },
        ),
{
    match error {
        Some(e) => {
            let mut message = "Responses WebSocket handshake failed: ".to_owned();
            message.append(e);
            ModelError::Transport(message)
        },
        None => ModelError::Transport(
            seconds_message("Responses WebSocket handshake timed out after ", 20),
        ),
    }
}

} // verus!
