//! Core logic of a terminal explorer for Buck2 projects.
//!
//! The crate holds the verified heart of the application: a priority-lane
//! task scheduler with cancellable units of work and deferred completion
//! hooks, and the single-flight load coordination that keeps at most one
//! directory-target load and one target-detail load in flight.  Terminal
//! rendering, key decoding and process execution live outside, in the
//! embedding program, which drives these types with plain values.

pub mod buck;
pub mod cancel;
pub mod events;
pub mod hooks;
pub mod parse;
pub mod queue;
pub mod scheduler;
pub mod search;
pub mod strutil;
pub mod task;
pub mod ui;
