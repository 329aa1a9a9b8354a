//! One sample of a model: the events of a response, gathered.

use crate::agent::error::{AgentError, AgentErrorView};
use crate::agent::history::{item_call, tool_call_from_response_item};
use crate::json::{lemma_views_push, views, Json, JsonView};
use crate::model::error::ModelErrorView;
use crate::protocol::model::{
    call_views, no_usage, CallView, ModelEvent, ModelEventView, ModelRequestMetadata, ModelToolCall,
    TokenUsage,
};
use vstd::prelude::*;
use vstd::utf8::encode_utf8;

verus! {

broadcast use lemma_views_push;

/// What a model answered.
#[derive(Debug, PartialEq)]
pub struct SampledStep {
    pub message: String,
    pub calls: Vec<ModelToolCall>,
    pub response_items: Vec<Json>,
    pub usage: TokenUsage,
    pub request_metadata: Option<ModelRequestMetadata>,
}

/// The mathematical value of a [`SampledStep`].
pub ghost struct SampleView {
    pub message: Seq<char>,
    pub calls: Seq<CallView>,
    pub response_items: Seq<JsonView>,
    pub usage: TokenUsage,
    pub request_metadata: Option<ModelRequestMetadata>,
}

impl View for SampledStep {
    type V = SampleView;

    open spec fn view(&self) -> SampleView {
        SampleView {
            message: self.message@,
            calls: call_views(self.calls@),
            response_items: views(self.response_items@),
            usage: self.usage,
            request_metadata: self.request_metadata,
        }
    }
}

/// A response that is being received.
#[derive(Debug, PartialEq)]
pub struct Sampling {
    message: String,
    pending: String,
    calls: Vec<ModelToolCall>,
    response_items: Vec<Json>,
    request_metadata: Option<ModelRequestMetadata>,
    usage: TokenUsage,
    completed: bool,
    tells: bool,
}

/// The mathematical value of a [`Sampling`].
pub ghost struct SamplingView {
    pub message: Seq<char>,
    /// What was received of the message and not told yet.
    pub pending: Seq<char>,
    pub calls: Seq<CallView>,
    pub response_items: Seq<JsonView>,
    pub request_metadata: Option<ModelRequestMetadata>,
    pub usage: TokenUsage,
    pub completed: bool,
    /// Whether the message is told while it is received.
    pub tells: bool,
}

impl View for Sampling {
    type V = SamplingView;

    closed spec fn view(&self) -> SamplingView {
        SamplingView {
            message: self.message@,
            pending: self.pending@,
            calls: call_views(self.calls@),
            response_items: views(self.response_items@),
            request_metadata: self.request_metadata,
            usage: self.usage,
            completed: self.completed,
            tells: self.tells,
        }
    }
}

/// What a response is once an event was received, and the part of the message to tell now: a
/// message is told in parts of 256 bytes or a little more.
pub open spec fn received(s: SamplingView, event: ModelEventView) -> Result<
    (SamplingView, Option<Seq<char>>),
    AgentErrorView,
> {
    match event {
        ModelEventView::RequestMetadata(metadata) => Ok(
            (SamplingView { request_metadata: Some(metadata), ..s }, None),
        ),
        ModelEventView::OutputTextDelta(delta) => {
            let message = s.message + delta;
            let pending = if s.tells {
                s.pending + delta
            } else {
                s.pending
            };
            if s.tells && encode_utf8(pending).len() >= 256 {
                Ok((SamplingView { message, pending: Seq::empty(), ..s }, Some(pending)))
            } else {
                Ok((SamplingView { message, pending, ..s }, None))
            }
        },
        ModelEventView::ToolCallCompleted(call) => Ok(
            (SamplingView { calls: s.calls.push(call), ..s }, None),
        ),
        ModelEventView::ResponseItemCompleted(item) => match item_call(item) {
            Ok(Some(call)) => Ok(
                (
                    SamplingView {
                        calls: s.calls.push(call),
                        response_items: s.response_items.push(item),
                        ..s
                    },
                    None,
                ),
            ),
            Ok(None) => Ok(
                (SamplingView { response_items: s.response_items.push(item), ..s }, None),
            ),
            Err(part) => Err(
                AgentErrorView::Model(
                    ModelErrorView::Stream("function call missing "@ + part),
                ),
            ),
        },
        ModelEventView::Completed(usage) => Ok((SamplingView { usage, completed: true, ..s }, None)),
    }
}

impl Sampling {
    /// A response of which nothing was received yet.
    pub fn new(tells: bool) -> (r: Self)
        ensures
            r@ == (SamplingView {
                message: Seq::empty(),
                pending: Seq::empty(),
                calls: Seq::empty(),
                response_items: Seq::empty(),
                request_metadata: None,
                usage: no_usage(),
                completed: false,
                tells,
            }),
    {
        let r = Sampling {
            message: String::new(),
            pending: String::new(),
            calls: Vec::new(),
            response_items: Vec::new(),
            request_metadata: None,
            usage: TokenUsage::default(),
            completed: false,
            tells,
        };
        assert(call_views(r.calls@) =~= Seq::<CallView>::empty());
        assert(views(r.response_items@) =~= Seq::<JsonView>::empty());
        r
    }

    fn push_call(&mut self, call: ModelToolCall)
        ensures
            final(self)@ == (SamplingView { calls: old(self)@.calls.push(call@), ..old(self)@ }),
    {
        let ghost before = self.calls@;
        self.calls.push(call);
        assert(call_views(self.calls@) =~= call_views(before).push(call@));
    }

    /// Receives an event and gives the part of the message to tell now. An event that is refused
    /// ends the sample.
    pub fn receive(&mut self, event: ModelEvent) -> (r: Result<Option<String>, AgentError>)
        ensures
            match r {
                Ok(told) => received(old(self)@, event@) == Ok::<
                    (SamplingView, Option<Seq<char>>),
                    AgentErrorView,
                >((final(self)@, crate::text::maybe(told))),
                Err(e) => received(old(self)@, event@) == Err::<
                    (SamplingView, Option<Seq<char>>),
                    AgentErrorView,
                >(e@),
            },
    {
        match event {
            ModelEvent::RequestMetadata { metadata } => {
                self.request_metadata = Some(metadata);
                Ok(None)
            },
            ModelEvent::OutputTextDelta { delta } => {
                self.message.append(delta.as_str());
                if self.tells {
                    self.pending.append(delta.as_str());
                }
                if self.tells && self.pending.as_str().as_bytes().len() >= 256 {
                    let mut told = String::new();
                    core::mem::swap(&mut told, &mut self.pending);
                    Ok(Some(told))
                } else {
                    Ok(None)
                }
            },
            ModelEvent::ToolCallCompleted { call } => {
                self.push_call(call);
                Ok(None)
            },
            ModelEvent::ResponseItemCompleted { item } => {
                match tool_call_from_response_item(&item) {
                    Ok(Some(call)) => {
                        self.push_call(call);
                    },
                    Ok(None) => {},
                    Err(e) => {
                        return Err(AgentError::Model(e));
                    },
                }
                self.response_items.push(item);
                Ok(None)
            },
            ModelEvent::Completed { usage } => {
                self.usage = usage;
                self.completed = true;
                Ok(None)
            },
        }
    }

    /// Ends a response: the rest of the message to tell, and what was sampled. A response that no
    /// completion ended is refused.
    pub fn finish(self) -> (r: Result<(Option<String>, SampledStep), AgentError>)
        ensures
            match r {
                Ok((told, sample)) => {
                    &&& self@.completed
                    &&& crate::text::maybe(told) == (if self@.tells && self@.pending.len() > 0 {
                        Some(self@.pending)
                    } else {
                        None
                    })
                    &&& sample@ == (SampleView {
                        message: self@.message,
                        calls: self@.calls,
                        response_items: self@.response_items,
                        usage: self@.usage,
                        request_metadata: self@.request_metadata,
                    })
                },
                Err(e) => !self@.completed && e@ == AgentErrorView::IncompleteModelStream,
            },
    {
        if !self.completed {
            return Err(AgentError::IncompleteModelStream);
        }
        let told = if self.tells && !self.pending.as_str().is_empty() {
            Some(self.pending)
        } else {
            None
        };
        Ok(
            (
                told,
                SampledStep {
                    message: self.message,
                    calls: self.calls,
                    response_items: self.response_items,
                    usage: self.usage,
                    request_metadata: self.request_metadata,
                },
            ),
        )
    }
}

/// The parts that are told make up the message: what was told before and what is pending is the
/// message, before and after every event.
pub proof fn law_told_parts_make_the_message(
    s: SamplingView,
    event: ModelEventView,
    told_before: Seq<char>,
)
    requires
        s.tells,
        told_before + s.pending == s.message,
    ensures
        received(s, event) matches Ok((next, told)) ==> ({
            let told_after = match told {
                Some(part) => told_before + part,
                None => told_before,
            };
            told_after + next.pending == next.message
        }),
{
    if let Ok((next, told)) = received(s, event) {
        if let ModelEventView::OutputTextDelta(delta) = event {
            assert(told_before + (s.pending + delta) =~= s.message + delta);
            assert(told_before + (s.pending + delta) + Seq::<char>::empty() =~= s.message + delta);
        }
    }
}

} // verus!
