//! Per-worker execution engine of a load-generation tool.
//!
//! Each worker simulates one virtual user: it repeatedly selects the next
//! task from a weighted, shuffled two-level bucket structure, runs the
//! configured start/stop hooks, answers synchronization commands from the
//! coordinating parent, and pauses between iterations according to the
//! think-time policy.

pub mod client;
pub mod commands;
pub mod hooks;
pub mod rng;
pub mod scheduler;
pub mod tasks;
pub mod wait;
