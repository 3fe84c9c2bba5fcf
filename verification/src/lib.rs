//! Core of a background download orchestrator for a desktop media client.
//!
//! The library owns the job registry and its state machine, the FIFO
//! scheduler that admits queued jobs under a configurable concurrency
//! ceiling, and the chunk-level decision logic of the transfer executor.
//! All I/O (the HTTP transfer itself, the file writes, notification
//! delivery) lives outside the library and talks to it through plain
//! values.

pub mod api;
pub mod job;
pub mod manager;
pub mod models;
pub mod naming;
pub mod notify;
pub mod numfmt;
pub mod state;
pub mod transfer;

use vstd::prelude::*;

verus! {

/// Hundredths of a percent: the resolution at which transfer progress is
/// tracked. A job's `progress` field ranges over `0..=FULL_PROGRESS`,
/// and equals `FULL_PROGRESS` exactly when the job has completed.
pub const FULL_PROGRESS: u32 = 10000;

} // verus!
