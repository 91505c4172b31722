//! The request path: backend selection and the pipeline that orders the
//! policy stages.

pub mod load_balancer;
pub mod pipeline;

