//! Sampling and delta computation for per-process resource traces.
//!
//! The library turns the text of the kernel's process pseudo-files into
//! typed snapshots, sums the threads of a process into one sample, diffs
//! consecutive samples into report rows and renders the rows as text.
//! It performs no I/O: callers read the files and hand the text over.

pub mod engine;
pub mod error;
pub mod fields;
pub mod number;
pub mod paths;
pub mod record;
pub mod report;
pub mod resolve;
pub mod snapshot;
pub mod text;
