//! Requests to the Kiro service: errors, retries, and the endpoints.

pub mod error;
pub mod retry;
pub mod call;
pub mod call_laws;
pub mod proxy;
pub mod client_cache;
pub mod outcome_laws;
pub mod parser;
pub mod report_laws;
pub mod route_laws;
pub mod snippet;
pub mod provider;
pub mod wait_laws;
pub mod endpoint;
