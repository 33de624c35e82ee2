//! Verified core of a gateway that serves Anthropic- and OpenAI-style chat
//! requests through a pool of upstream credentials.

pub mod admin;
pub mod anthropic;
pub mod base_laws;
pub mod clock;
pub mod encoding;
pub mod http_client;
pub mod ids;
pub mod json;
pub mod kiro;
pub mod model;
pub mod openai;
pub mod text;
