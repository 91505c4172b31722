//! Observability hooks: the per-process record of request outcomes.

pub mod metrics;
