//! Timing model of GPU kernels: profiling sweeps, interpolation tables and cost trees.

pub mod bridge;
pub mod cache;
pub mod cost_tree;
pub mod dims;
pub mod expert_demand;
pub mod jit;
pub mod kernels;
pub mod sweep;
pub mod text;
pub mod text_map;
