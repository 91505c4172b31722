//! Configuration supplied to the gateway at startup.
//!
//! These are plain values: the loader that fills them from files and
//! the environment lives outside the verified core and hands a complete
//! [`AppConfig`] in.

use vstd::prelude::*;

verus! {

/// The whole gateway configuration.
#[derive(Debug, Clone)]
pub struct AppConfig {
    pub server: ServerConfig,
    pub backends: Vec<BackendConfig>,
    pub waf: WafConfig,
    pub ratelimit: RateLimitConfig,
    pub logging: LoggingConfig,
}

/// Where the server listens, and its TLS settings.
#[derive(Debug, Clone)]
pub struct ServerConfig {
    pub host: String,
    pub port: u16,
    pub tls: TlsConfig,
}

/// TLS certificate wiring; consumed by the unverified server shell.
#[derive(Debug, Clone)]
pub struct TlsConfig {
    pub enabled: bool,
    pub cert_path: String,
    pub key_path: String,
}

/// One named pool of upstream base URLs.
#[derive(Debug, Clone)]
pub struct BackendConfig {
    pub name: String,
    pub urls: Vec<String>,
    pub timeout_ms: u64,
}

/// WAF engine settings: whether it runs, whether matches block
/// (`mode` is `"block"` or `"monitor"`), and where its rules come from.
#[derive(Debug, Clone)]
pub struct WafConfig {
    pub enabled: bool,
    pub mode: String,
    pub rules_file: String,
}

/// Fixed-window rate-limiter settings.
#[derive(Debug, Clone)]
pub struct RateLimitConfig {
    pub enabled: bool,
    pub requests_per_window: u32,
    pub window_seconds: u64,
    pub whitelist: Vec<String>,
}

/// Logging settings; consumed by the unverified observability setup.
#[derive(Debug, Clone)]
pub struct LoggingConfig {
    pub level: String,
    pub format: String,
}

} // verus!
