//! Configuration of the gateway.

pub mod config;
pub mod config_laws;
pub mod names;
