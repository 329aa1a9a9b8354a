//! PaperMachine's decision core.

pub mod agent;
pub mod digest;
pub mod execution;
pub mod json;
pub mod laws;
pub mod model;
pub mod path;
pub mod path_laws;
pub mod protocol;
pub mod research;
pub mod server;
pub mod text;
