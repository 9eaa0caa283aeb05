//! Supervisor and worker logic for a manager of many voice-playback bots.
//!
//! The crate holds the decisions of the system as verified, synchronous
//! transitions over one shared store: the lifecycle of each account's worker,
//! the handling of each command, the periodic reconciliation of the playback
//! engine's state into the store, and the reaction to track events. The
//! asynchronous plumbing that performs the requested actions lives with the
//! caller, which acquires the store, applies one transition and releases it.

pub mod config;
pub mod engine;
pub mod liveness;
pub mod observer;
pub mod order;
pub mod outside;
pub mod presentation;
pub mod queue;
pub mod sources;
pub mod state;
pub mod supervisor;
pub mod text;
pub mod worker;
