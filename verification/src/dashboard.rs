//! The status dashboard's data: aggregate counters and the backend
//! pools, computed from the verified state.

pub mod routes;
