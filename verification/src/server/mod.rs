//! The rules of the server: requests, Sessions, Workspaces, events.

pub mod api;
pub mod demo;
pub mod events;
pub mod host;
pub mod laws;
pub mod lifecycle;
pub mod models;
pub mod paths;
pub mod picker;
pub mod schema;
pub mod sessions;
pub mod setup_laws;
pub mod startup;
pub mod workspace;
