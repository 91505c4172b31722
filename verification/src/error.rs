//! The gateway's error type and its mapping to HTTP status codes.
//!
//! Startup-fatal kinds (`ConfigLoad`, `RuleFileIo`, `RulePatternCompile`)
//! stop the process before it serves traffic; the per-request kinds
//! (`BackendUnavailable`, `UpstreamRequest`) surface to the caller as a
//! gateway error, and `Internal` covers everything unexpected.

use vstd::prelude::*;

verus! {

/// Every failure the gateway can report, as a tagged variant.
///
/// The payload of a variant is a short human-readable description; it is
/// never shown to clients (see [`AppError::client_message`]).
#[derive(Debug)]
pub enum AppError {
    /// The configuration could not be loaded or parsed.
    ConfigLoad(String),
    /// The WAF rule file could not be read or its syntax was invalid.
    RuleFileIo(String),
    /// A WAF rule's pattern string did not compile to a valid pattern.
    RulePatternCompile(String),
    /// The request to the chosen upstream failed (network or timeout).
    UpstreamRequest(String),
    /// The backend pool had no candidate to forward to.
    BackendUnavailable,
    /// An unclassified internal failure.
    Internal(String),
}

impl AppError {
    /// The HTTP status code this error surfaces as: 502 when a backend
    /// could not be reached or none was available, 500 otherwise.
    pub fn status_code(&self) -> (status: u16)
        ensures
            status == self.spec_status_code(),
    {
        match self {
            AppError::BackendUnavailable => 502,
            AppError::UpstreamRequest(_) => 502,
            _ => 500,
        }
    }

    /// The status code as a spec-level function of the variant.
    pub open spec fn spec_status_code(&self) -> u16 {
        match self {
            AppError::BackendUnavailable => 502u16,
            AppError::UpstreamRequest(_) => 502u16,
            _ => 500u16,
        }
    }

    /// The generic message shown to the client; internal detail strings
    /// never leak here.
    pub fn client_message(&self) -> (msg: &'static str)
        ensures
            (self matches AppError::BackendUnavailable) ==> msg@
                == "Backend services unavailable"@,
            (self matches AppError::UpstreamRequest(_)) ==> msg@ == "Upstream error"@,
            !(self matches AppError::BackendUnavailable) && !(self matches AppError::UpstreamRequest(
                _,
            )) ==> msg@ == "Internal server error"@,
    {
        match self {
            AppError::BackendUnavailable => "Backend services unavailable",
            AppError::UpstreamRequest(_) => "Upstream error",
            _ => "Internal server error",
        }
    }
}

} // verus!
