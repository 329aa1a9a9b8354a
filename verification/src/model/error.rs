//! What goes wrong with a model.

use crate::protocol::model::TokenUsage;
use crate::text::{decimal, number, same};
use vstd::prelude::*;

verus! {

#[derive(Debug, PartialEq, Eq)]
pub enum ModelError {
    Configuration(String),
    Transport(String),
    Http { status: u16, message: String },
    Stream(String),
    Provider(String),
    IncompleteResponse { reason: String, usage: TokenUsage },
    ScriptExhausted,
}

/// The mathematical value of a [`ModelError`].
pub ghost enum ModelErrorView {
    Configuration(Seq<char>),
    Transport(Seq<char>),
    Http { status: u16, message: Seq<char> },
    Stream(Seq<char>),
    Provider(Seq<char>),
    IncompleteResponse { reason: Seq<char>, usage: TokenUsage },
    ScriptExhausted,
}

impl View for ModelError {
    type V = ModelErrorView;

    open spec fn view(&self) -> ModelErrorView {
        match *self {
            ModelError::Configuration(m) => ModelErrorView::Configuration(m@),
            ModelError::Transport(m) => ModelErrorView::Transport(m@),
            ModelError::Http { status, message } => ModelErrorView::Http { status, message: message@ },
            ModelError::Stream(m) => ModelErrorView::Stream(m@),
            ModelError::Provider(m) => ModelErrorView::Provider(m@),
            ModelError::IncompleteResponse { reason, usage } => ModelErrorView::IncompleteResponse {
                reason: reason@,
                usage,
            },
            ModelError::ScriptExhausted => ModelErrorView::ScriptExhausted,
        }
    }
}

impl ModelErrorView {
    /// Whether another attempt may succeed.
    pub open spec fn retryable(self) -> bool {
        match self {
            ModelErrorView::Transport(_) | ModelErrorView::Stream(_) => true,
            ModelErrorView::Http { status, .. } => status == 429 || status >= 500,
            ModelErrorView::IncompleteResponse { reason, .. } => reason == "max_output_tokens"@,
            _ => false,
        }
    }

    /// Whether the response ran into its output limit.
    pub open spec fn output_limit(self) -> bool {
        self matches ModelErrorView::IncompleteResponse { reason, .. } && reason
            == "max_output_tokens"@
    }

    /// What a response that was cut off had used.
    pub open spec fn usage(self) -> Option<TokenUsage> {
        match self {
            ModelErrorView::IncompleteResponse { usage, .. } => Some(usage),
            _ => None,
        }
    }

    /// The error in words.
    pub open spec fn message(self) -> Seq<char> {
        match self {
            ModelErrorView::Configuration(m) => "model configuration error: "@ + m,
            ModelErrorView::Transport(m) => "model request failed: "@ + m,
            ModelErrorView::Http { status, message } => "model provider returned HTTP "@ + decimal(
                status as nat,
            ) + ": "@ + message,
            ModelErrorView::Stream(m) => "model stream error: "@ + m,
            ModelErrorView::Provider(m) => "model provider error: "@ + m,
            ModelErrorView::IncompleteResponse { reason, .. } =>
                "model provider response was incomplete: "@ + reason,
            ModelErrorView::ScriptExhausted => "scripted model has no response remaining"@,
        }
    }
}

fn told(prefix: &str, detail: &str) -> (r: String)
    ensures
        r@ == prefix@ + detail@,
{
    let mut r = prefix.to_owned();
    r.append(detail);
    r
}

impl ModelError {
    pub fn is_retryable(&self) -> (r: bool)
        ensures
            r == self@.retryable(),
    {
        match self {
            ModelError::Transport(_) | ModelError::Stream(_) => true,
            ModelError::Http { status, .. } => *status == 429 || *status >= 500,
            ModelError::IncompleteResponse { reason, .. } => same(
                reason.as_str(),
                "max_output_tokens",
            ),
            ModelError::Configuration(_) | ModelError::Provider(_) | ModelError::ScriptExhausted => {
                false
            },
        }
    }

    pub fn incomplete_usage(&self) -> (r: Option<TokenUsage>)
        ensures
            r == self@.usage(),
    {
        match self {
            ModelError::IncompleteResponse { usage, .. } => Some(*usage),
            _ => None,
        }
    }

    pub fn is_output_limit(&self) -> (r: bool)
        ensures
            r == self@.output_limit(),
    {
        match self {
            ModelError::IncompleteResponse { reason, .. } => same(
                reason.as_str(),
                "max_output_tokens",
            ),
            _ => false,
        }
    }

    /// The error in words.
    pub fn message(&self) -> (r: String)
        ensures
            r@ == self@.message(),
    {
        match self {
            ModelError::Configuration(m) => told("model configuration error: ", m.as_str()),
            ModelError::Transport(m) => told("model request failed: ", m.as_str()),
            ModelError::Http { status, message } => {
                let mut r = told("model provider returned HTTP ", number(*status as u64).as_str());
                r.append(": ");
                r.append(message.as_str());
                r
            },
            ModelError::Stream(m) => told("model stream error: ", m.as_str()),
            ModelError::Provider(m) => told("model provider error: ", m.as_str()),
            ModelError::IncompleteResponse { reason, .. } => told(
                "model provider response was incomplete: ",
                reason.as_str(),
            ),
            ModelError::ScriptExhausted => "scripted model has no response remaining".to_owned(),
        }
    }
}

} // verus!
