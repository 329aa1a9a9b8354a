//! Workflow programs: how they are written, kept and run.

pub mod catalog;
pub mod generator;
pub mod laws;
pub mod scheduler;
