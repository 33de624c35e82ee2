//! The endpoints of the service.

pub mod context;
pub mod runtime_cli;
