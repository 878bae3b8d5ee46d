//! An asynchronous external-process supervisor with multi-location resource
//! resolution.
//!
//! The crate holds the decision logic of the supervisor: locating a script
//! across an ordered list of candidate locations, picking an interpreter by
//! availability probing, building the child's command line, and emitting
//! lifecycle notifications (started, stderr lines, one terminal outcome) in
//! the right order and number. All filesystem probes, process spawns and
//! stream reads are performed by the embedding application, which feeds their
//! outcomes into these functions as plain values.

pub mod discovery;
pub mod invocation;
pub mod locator;
pub mod supervisor;
pub mod text;
