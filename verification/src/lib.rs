//! A competitive-programming judge runtime: the decision core.
//!
//! The library holds the verified logic of the judge: the verdict model,
//! the line-oriented output checker, the parsers for the procfs resource
//! probes, the supervision state machine that enforces time, memory and
//! idle limits on a child process, and the batch driver that folds the
//! per-case verdicts of a test directory into one result.
//!
//! Everything that touches the operating system directly (spawning the
//! child, reading procfs, the socket) lives outside the library and hands
//! plain values in; the two signal-related system calls the state machine
//! itself needs are reached through narrow trusted wrappers.

pub mod batch;
pub mod checker;
pub mod ipc;
pub mod numfmt;
pub mod probes;
pub mod process;
pub mod verdict;
