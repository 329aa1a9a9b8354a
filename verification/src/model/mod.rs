//! Model providers: what is sent to them and how their answers are read.

pub mod answer_laws;
pub mod chat;
pub mod chat_laws;
pub mod chat_stream;
pub mod configured;
pub mod endpoint;
pub mod error;
pub mod http;
pub mod laws;
pub mod metadata;
pub mod providers;
pub mod responses;
pub mod route;
pub mod route_laws;
pub mod router;
pub mod scripted;
pub mod sessions;
pub mod told_laws;
pub mod websocket;
pub mod wire_laws;
