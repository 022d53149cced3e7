//! Gateway configuration blocks.

use vstd::prelude::*;
use crate::net::IpNet;

verus! {

/// Where the gateway listens and how verbosely it logs.
pub struct ServerConfig {
    pub host: String,
    pub port: u16,
    pub log_level: String,
}

/// Connection settings of the shared store.
pub struct DatabaseConfig {
    pub redis_url: String,
    pub connection_timeout: u64,
}

/// Token verification settings.
pub struct JwtConfig {
    pub secret_key_path: String,
    pub issuer: String,
}

/// Settings of the signature the gateway attaches to forwarded requests.
pub struct ZeroTrustConfig {
    pub private_key_path: String,
    pub signature_header: String,
}

/// Limits and deny lists of the filter that screens each request first.
pub struct FastRejectConfig {
    pub max_header_count: usize,
    pub max_uri_length: usize,
    pub max_body_size: usize,
    pub blocked_paths: Vec<String>,
    pub ip_blacklist: Vec<String>,
}

/// Security settings.
pub struct SecurityConfig {
    pub jwt: JwtConfig,
    pub zero_trust: ZeroTrustConfig,
    pub fast_reject: FastRejectConfig,
    /// Peers whose `X-Forwarded-For` header is believed.
    pub trusted_proxies: Vec<IpNet>,
}

/// Per-route request budget.
pub struct RateLimitConfig {
    pub max_requests: u64,
    pub per_seconds: u64,
}

/// One upstream route.
pub struct RouteConfig {
    pub path: String,
    pub target: String,
    pub strip_prefix: bool,
    pub auth_required: bool,
    pub rate_limit: Option<RateLimitConfig>,
    pub ai_caching: Option<bool>,
}

} // verus!
