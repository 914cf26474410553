//! Incremental document builds: snapshots of source directories, the
//! decision whether an output is stale, and the per-task build protocol.

pub mod paths;
pub mod snapshot;
pub mod error;
pub mod staleness;
pub mod config;
pub mod executor;
