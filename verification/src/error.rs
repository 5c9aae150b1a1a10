//! Why a chain failed.

use crate::process::ExitOutcome;
use vstd::prelude::*;
use vstd::string::StringExecFns;

verus! {

/// The failure of one step of a chain.
#[derive(Clone, Debug, PartialEq, Eq)]
pub enum ChainError {
    /// The program could not be started.
    Spawn { program: String, cause: String },
    /// The exit status of the started program could not be obtained.
    Wait { program: String, cause: String },
    /// The program ran and ended without success.
    ProcessFailure { program: String, outcome: ExitOutcome },
}

/// A `ChainError` as mathematical values.
pub enum ChainErrorView {
    Spawn { program: Seq<char>, cause: Seq<char> },
    Wait { program: Seq<char>, cause: Seq<char> },
    ProcessFailure { program: Seq<char>, outcome: ExitOutcome },
}

impl View for ChainError {
    type V = ChainErrorView;

    open spec fn view(&self) -> ChainErrorView {
        match self {
            ChainError::Spawn { program, cause } => ChainErrorView::Spawn {
                program: program@,
                cause: cause@,
            },
            ChainError::Wait { program, cause } => ChainErrorView::Wait {
                program: program@,
                cause: cause@,
            },
            ChainError::ProcessFailure { program, outcome } => ChainErrorView::ProcessFailure {
                program: program@,
                outcome: *outcome,
            },
        }
    }
}

impl ChainErrorView {
    /// The diagnostic for the failure: what failed, for which program, and why.
    pub open spec fn message(self) -> Seq<char> {
        match self {
            ChainErrorView::Spawn { program, cause } => "Failed to spawn "@ + program + ": "@
                + cause,
            ChainErrorView::Wait { program, cause } => "Failed to wait for "@ + program + ": "@
                + cause,
            ChainErrorView::ProcessFailure { program, outcome } => "Process "@ + program
                + " exited with: "@ + outcome.description(),
        }
    }

    /// The program that the failure is about.
    pub open spec fn program(self) -> Seq<char> {
        match self {
            ChainErrorView::Spawn { program, .. } => program,
            ChainErrorView::Wait { program, .. } => program,
            ChainErrorView::ProcessFailure { program, .. } => program,
        }
    }
}

impl ChainError {
    /// The program that the failure is about.
    pub fn program(&self) -> (program: &String)
        ensures
            program@ == self@.program(),
    {
        match self {
            ChainError::Spawn { program, .. } => program,
            ChainError::Wait { program, .. } => program,
            ChainError::ProcessFailure { program, .. } => program,
        }
    }

    /// The diagnostic for the failure: what failed, for which program, and why.
    pub fn message(&self) -> (text: String)
        ensures
            text@ == self@.message(),
    {
        match self {
            ChainError::Spawn { program, cause } => {
                let mut text = String::from_str("Failed to spawn ");
                text.append(program.as_str());
                text.append(": ");
                text.append(cause.as_str());
                text
            },
            ChainError::Wait { program, cause } => {
                let mut text = String::from_str("Failed to wait for ");
                text.append(program.as_str());
                text.append(": ");
                text.append(cause.as_str());
                text
            },
            ChainError::ProcessFailure { program, outcome } => {
                let mut text = String::from_str("Process ");
                text.append(program.as_str());
                text.append(" exited with: ");
                let description = outcome.describe();
                text.append(description.as_str());
                text
            },
        }
    }
}

/// The result of a chain, or of a whole run, as mathematical values.
pub open spec fn result_view(result: Result<(), ChainError>) -> Result<(), ChainErrorView> {
    match result {
        Ok(_) => Ok(()),
        Err(error) => Err(error@),
    }
}

} // verus!
