//! ShieldProxy: a reverse-proxy gateway core.
//!
//! Every inbound request passes three policy stages in order — rate
//! limiting, WAF inspection, and round-robin backend selection — before
//! being forwarded upstream.  This crate holds the verified policy
//! engines and the pipeline decision logic; the surrounding server
//! (sockets, TLS, HTTP plumbing) lives outside it and calls in with
//! plain values.

pub mod config;
pub mod dashboard;
pub mod error;
pub mod observability;
pub mod proxy;
pub mod ratelimit;
pub mod waf;
