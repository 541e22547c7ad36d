//! A multi-host reachability prober: resolved targets are probed on a fixed
//! cadence, per-target statistics are accumulated incrementally, and the
//! results are combined and ordered for presentation.
//!
//! This crate holds the verified core: the per-target result accumulator
//! with its exact running statistics, the aggregate summary, the ordering of
//! results for display, and the textual rendering of durations and rates.
//! Address resolution, the probe transport, and terminal output live outside.
pub mod config;
pub mod display;
pub mod duration;
pub mod ping;
pub mod stats;
pub mod target;
