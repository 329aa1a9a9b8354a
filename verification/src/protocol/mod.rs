//! What the parts of the system exchange.

pub mod event;
pub mod ids;
pub mod laws;
pub mod model;
pub mod permissions;
pub mod project;
pub mod prompt;
pub mod research;
pub mod rollout;
pub mod session;
pub mod skill;
pub mod tool_set;
pub mod workflow;
