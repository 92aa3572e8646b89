//! Core engine of a vehicle routing problem optimizer: a constraint pipeline
//! with incremental per-route state, an insertion cache, and an evolutionary
//! solver loop with composable termination.

pub mod common;
pub mod problem;
pub mod solution;
pub mod state;
pub mod contexts;
pub mod pipeline;
pub mod capacity;
pub mod objectives;
pub mod termination;
pub mod population;
pub mod format;
pub mod evolution;
pub mod cache;
pub mod pragmatic;
pub mod examples;
pub mod research;
pub mod recharge;
pub mod heuristics;
pub mod dispatch;
