//! The chat completion interface, on top of the message interface.

pub mod blocks;
pub mod chat;
pub mod chunk_laws;
pub mod handlers;
pub mod laws;
pub mod parse;
pub mod request_laws;
pub mod response_laws;
pub mod sse;
pub mod stream_laws;
pub mod types;
