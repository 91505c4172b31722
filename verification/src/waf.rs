//! Web-application-firewall rule definitions and matching engine.

pub mod engine;
pub mod rules;
