//! Child processes in a sandbox: what they may touch, and how they are started.

pub mod child_laws;
pub mod environment;
pub mod error;
pub mod laws;
pub mod linux;
pub mod macos;
pub mod output;
pub mod policy;
pub mod request;
pub mod resolve;
pub mod scan;
pub mod seatbelt_laws;
pub mod shell;
pub mod windows;
