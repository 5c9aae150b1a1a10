//! Supervision of chains of external programs.
//!
//! A chain is a sequence of programs run one after another; distinct chains run
//! side by side.  The run ends as soon as one chain completes its last program, or
//! as soon as any program fails: at that moment every other program that is known
//! to be alive is told to terminate.
//!
//! This library holds the decisions of such a supervisor and proves them.  Spawning,
//! waiting and signalling are left to the caller, which reports what happened and
//! carries out what the library answers.

pub mod chain;
pub mod error;
pub mod launcher;
pub mod laws;
pub mod model;
pub mod orchestrator;
pub mod process;
pub mod registry;
pub mod text;
pub mod tokens;

pub use chain::{ChainRun, Finished, Stage};
pub use error::ChainError;
pub use launcher::{Launch, Running};
pub use orchestrator::{exit_code, overall_result};
pub use process::{ExitOutcome, ProcessSpec};
pub use registry::{teardown, ProcessRegistry};
pub use tokens::process_chains;
