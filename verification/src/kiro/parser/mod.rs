//! The framing of streamed answers.

pub mod crc;
pub mod decoder;
pub mod laws;
