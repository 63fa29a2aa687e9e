//! Verified core of a multi-target reachability monitor: interval scheduling,
//! per-target statistics, transition detection, and the text that is shown
//! and logged.

pub mod accumulator;
pub mod schedule;
pub mod latency;
pub mod log;
pub mod monitor;
pub mod probe;
pub mod stats;
pub mod table;
pub mod targets;
pub mod text;
