//! The message interface that requests are served through.

pub mod types;
