//! Reconciliation engine for declarative access-control state.
//!
//! The library decides, on each run, whether to perform a full resync or an
//! incremental sync, parses a commit-range diff into deduplicated change
//! records, selects the ref at which each record's file content must be read,
//! and drives application of each change through a state machine.  All I/O
//! (HTTP, files, shell commands) is left to the embedding program, which runs
//! the state machine's action/event loop.

pub mod checkpoint;
pub mod config;
pub mod diff;
pub mod driver;
pub mod fetcher;
pub mod identity;
pub mod models;
