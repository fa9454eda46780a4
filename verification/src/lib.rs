//! Decision logic of a direct-I/O disk benchmark: the per-device queue of
//! in-flight operations, the metric aggregation behind it, and the planning
//! done around a timed run. Everything here is plain computation on plain
//! values; opening devices, submitting I/O and sleeping is left to the caller.

pub mod buffer;
pub mod cli;
pub mod counter;
pub mod device;
pub mod engine;
pub mod entropy;
pub mod metrics;
pub mod offsets;
pub mod prep;
pub mod report;
pub mod run;
pub mod text;
pub mod trace;
pub mod worker;
