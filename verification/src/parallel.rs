//! Running many independent commands under a concurrency cap.
//!
//! The pieces, leaves first:
//! - `exit`: what one finished job contributes to the exit code, and how the
//!   contributions of all jobs combine;
//! - `options`: the options that precede the command;
//! - `plan`: the ordered list of jobs that the remaining tokens name;
//! - `invocation`: the whole command line, options and jobs together;
//! - `admission`: the ceiling on the system load that a new job has to get
//!   under;
//! - `model`: the dispatcher as a transition system;
//! - `laws`: what holds of the dispatcher in every state it can reach;
//! - `scheduler`: the dispatcher that runs, step by step as the model says.

pub mod admission;
pub mod exit;
pub mod invocation;
pub mod laws;
pub mod model;
pub mod options;
pub mod plan;
pub mod scheduler;
