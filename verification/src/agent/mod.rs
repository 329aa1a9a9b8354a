//! The agent loop: what a Turn sends to a model, and what it makes of the answers.

pub mod error;
pub mod history;
pub mod laws;
pub mod request;
pub mod sample;
pub mod step;
pub mod step_laws;
pub mod tools;
pub mod transitions;
pub mod turn;
