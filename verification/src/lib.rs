//! Graceful termination of operating-system processes.
//!
//! Given a set of process identifiers, the orchestrator asks each process to
//! shut down, waits up to a grace period for them to exit on their own, and
//! forcibly terminates whoever is left. This crate holds the decisions: which
//! signal goes to which process, how an operating-system reply is classified,
//! when the grace period is over and who is escalated. The operating-system
//! calls themselves (sending a signal, sleeping, reading the clock) are made by
//! the program that drives the [`supervisor::Supervisor`].

pub mod notice;
pub mod outcome;
pub mod result;
pub mod args;
pub mod laws;
pub mod signal;
pub mod supervisor;
pub mod text;
