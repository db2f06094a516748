//! Requests to the profiler and the state that a model build carries.

pub mod build_state;
pub mod error;
pub mod metrics;
pub mod payload;
