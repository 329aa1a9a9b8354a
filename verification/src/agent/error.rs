//! Why a Turn ends without a result.

use crate::model::error::{ModelError, ModelErrorView};
use crate::text::{decimal, number};
use vstd::prelude::*;

verus! {

#[derive(Debug, PartialEq, Eq)]
pub enum AgentError {
    Model(ModelError),
    Cancelled,
    StepCounterOverflow,
    IncompleteModelStream,
    EmptyModelResponse,
    InvalidToolCallIdentity(String),
    ContextWindowTooSmall { window: usize, reserved: usize },
    ContextWindowExceeded { estimated: usize, budget: usize },
    EventSink(String),
    Control(String),
    Interrupted(String),
}

/// The mathematical value of an [`AgentError`].
pub ghost enum AgentErrorView {
    Model(ModelErrorView),
    Cancelled,
    StepCounterOverflow,
    IncompleteModelStream,
    EmptyModelResponse,
    InvalidToolCallIdentity(Seq<char>),
    ContextWindowTooSmall { window: usize, reserved: usize },
    ContextWindowExceeded { estimated: usize, budget: usize },
    EventSink(Seq<char>),
    Control(Seq<char>),
    Interrupted(Seq<char>),
}

impl View for AgentError {
    type V = AgentErrorView;

    open spec fn view(&self) -> AgentErrorView {
        match *self {
            AgentError::Model(e) => AgentErrorView::Model(e@),
            AgentError::Cancelled => AgentErrorView::Cancelled,
            AgentError::StepCounterOverflow => AgentErrorView::StepCounterOverflow,
            AgentError::IncompleteModelStream => AgentErrorView::IncompleteModelStream,
            AgentError::EmptyModelResponse => AgentErrorView::EmptyModelResponse,
            AgentError::InvalidToolCallIdentity(m) => AgentErrorView::InvalidToolCallIdentity(m@),
            AgentError::ContextWindowTooSmall { window, reserved } => {
                AgentErrorView::ContextWindowTooSmall { window, reserved }
            },
            AgentError::ContextWindowExceeded { estimated, budget } => {
                AgentErrorView::ContextWindowExceeded { estimated, budget }
            },
            AgentError::EventSink(m) => AgentErrorView::EventSink(m@),
            AgentError::Control(m) => AgentErrorView::Control(m@),
            AgentError::Interrupted(m) => AgentErrorView::Interrupted(m@),
        }
    }
}

impl AgentErrorView {
    /// Whether another sample may succeed.
    pub open spec fn retryable(self) -> bool {
        match self {
            AgentErrorView::Model(e) => e.retryable(),
            AgentErrorView::IncompleteModelStream | AgentErrorView::EmptyModelResponse => true,
            _ => false,
        }
    }

    /// Whether the sample ran into its output limit.
    pub open spec fn output_limit(self) -> bool {
        self matches AgentErrorView::Model(e) && e.output_limit()
    }

    /// The error in words.
    pub open spec fn message(self) -> Seq<char> {
        match self {
            AgentErrorView::Model(e) => e.message(),
            AgentErrorView::Cancelled => "agent run was cancelled"@,
            AgentErrorView::StepCounterOverflow => "agent model-step counter overflowed"@,
            AgentErrorView::IncompleteModelStream =>
                "model stream ended without a completion event"@,
            AgentErrorView::EmptyModelResponse =>
                "model completed without a message or tool call"@,
            AgentErrorView::InvalidToolCallIdentity(m) =>
                "model returned an invalid tool-call identity: "@ + m,
            AgentErrorView::ContextWindowTooSmall { window, reserved } =>
                "model context window is too small: "@ + decimal(window as nat)
                + " tokens configured, "@ + decimal(reserved as nat)
                + " tokens reserved for instructions, tools, and output"@,
            AgentErrorView::ContextWindowExceeded { estimated, budget } =>
                "turn context requires about "@ + decimal(estimated as nat)
                + " tokens but only "@ + decimal(budget as nat) + " are available"@,
            AgentErrorView::EventSink(m) => "failed to persist agent event: "@ + m,
            AgentErrorView::Control(m) => "agent control plane failed: "@ + m,
            AgentErrorView::Interrupted(m) => "Turn interrupted by human: "@ + m,
        }
    }
}

impl AgentError {
    /// Whether another sample may succeed.
    pub fn is_retryable(&self) -> (r: bool)
        ensures
            r == self@.retryable(),
    {
        match self {
            AgentError::Model(e) => e.is_retryable(),
            AgentError::IncompleteModelStream | AgentError::EmptyModelResponse => true,
            _ => false,
        }
    }

    /// Whether the sample ran into its output limit.
    pub fn is_output_limit(&self) -> (r: bool)
        ensures
            r == self@.output_limit(),
    {
        match self {
            AgentError::Model(e) => e.is_output_limit(),
            _ => false,
        }
    }

    /// The error in words.
    pub fn message(&self) -> (r: String)
        ensures
            r@ == self@.message(),
    {
        match self {
            AgentError::Model(e) => e.message(),
            AgentError::Cancelled => "agent run was cancelled".to_owned(),
            AgentError::StepCounterOverflow => "agent model-step counter overflowed".to_owned(),
            AgentError::IncompleteModelStream => {
                "model stream ended without a completion event".to_owned()
            },
            AgentError::EmptyModelResponse => {
                "model completed without a message or tool call".to_owned()
            },
            AgentError::InvalidToolCallIdentity(m) => {
                let mut r = "model returned an invalid tool-call identity: ".to_owned();
                r.append(m.as_str());
                r
            },
            AgentError::ContextWindowTooSmall { window, reserved } => {
                let mut r = "model context window is too small: ".to_owned();
                r.append(number(*window as u64).as_str());
                r.append(" tokens configured, ");
                r.append(number(*reserved as u64).as_str());
                r.append(" tokens reserved for instructions, tools, and output");
                r
            },
            AgentError::ContextWindowExceeded { estimated, budget } => {
                let mut r = "turn context requires about ".to_owned();
                r.append(number(*estimated as u64).as_str());
                r.append(" tokens but only ");
                r.append(number(*budget as u64).as_str());
                r.append(" are available");
                r
            },
            AgentError::EventSink(m) => {
                let mut r = "failed to persist agent event: ".to_owned();
                r.append(m.as_str());
                r
            },
            AgentError::Control(m) => {
                let mut r = "agent control plane failed: ".to_owned();
                r.append(m.as_str());
                r
            },
            AgentError::Interrupted(m) => {
                let mut r = "Turn interrupted by human: ".to_owned();
                r.append(m.as_str());
                r
            },
        }
    }
}

} // verus!
