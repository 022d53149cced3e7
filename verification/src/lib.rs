//! Verified core of a zero-trust API gateway: request screening, client
//! identification, routing decisions, request signing and request metrics.

pub mod ai_engine;
pub mod auth;
pub mod config;
pub mod dashboard;
pub mod fast_reject;
pub mod json;
pub mod metrics;
pub mod net;
pub mod proxy;
pub mod request;
pub mod routing;
pub mod signature;
pub mod text;
