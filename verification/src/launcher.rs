//! Starting one program and seeing it through to its exit.
//!
//! The caller spawns the program and waits for it; the launcher keeps the registry
//! in step.  An identifier enters the registry as soon as the spawn is reported,
//! before anyone waits for the process, and leaves it as soon as the end of the
//! wait is reported, whatever the wait brought.

use crate::error::{ChainError, ChainErrorView};
use crate::process::{ExitOutcome, ProcessSpec, ProcessSpecView};
use crate::registry::ProcessRegistry;
use vstd::prelude::*;

verus! {

/// A program that is about to be spawned.
#[derive(Debug)]
pub struct Launch {
    spec: ProcessSpec,
}

/// A program that was spawned and registered, and whose exit is awaited.
#[derive(Debug)]
pub struct Running {
    program: String,
    pid: u32,
}

/// A `Running` as mathematical values.
pub struct RunningView {
    pub program: Seq<char>,
    pub pid: u32,
}

impl View for Launch {
    type V = ProcessSpecView;

    closed spec fn view(&self) -> ProcessSpecView {
        self.spec@
    }
}

impl View for Running {
    type V = RunningView;

    closed spec fn view(&self) -> RunningView {
        RunningView { program: self.program@, pid: self.pid }
    }
}

/// What a spawn attempt brought: the new process identifier, or the cause of the
/// failure.
pub open spec fn spawn_view(spawned: Result<u32, String>) -> Result<u32, Seq<char>> {
    match spawned {
        Ok(pid) => Ok(pid),
        Err(cause) => Err(cause@),
    }
}

/// What a wait brought: how the process ended, or why that could not be learned.
pub open spec fn wait_view(waited: Result<ExitOutcome, String>) -> Result<ExitOutcome, Seq<char>> {
    match waited {
        Ok(outcome) => Ok(outcome),
        Err(cause) => Err(cause@),
    }
}

/// The launcher's answer to a spawn report, as mathematical values.
pub open spec fn running_view(started: Result<Running, ChainError>) -> Result<
    RunningView,
    ChainErrorView,
> {
    match started {
        Ok(running) => Ok(running@),
        Err(error) => Err(error@),
    }
}

/// The launcher's answer to a wait report, as mathematical values.
pub open spec fn launched_view(launched: Result<ExitOutcome, ChainError>) -> Result<
    ExitOutcome,
    ChainErrorView,
> {
    match launched {
        Ok(outcome) => Ok(outcome),
        Err(error) => Err(error@),
    }
}

/// The effect of a spawn report: a spawned process is awaited next and its
/// identifier becomes a member; a failed spawn is a spawn error and adds no member.
pub open spec fn spawn_step(
    spec: ProcessSpecView,
    spawned: Result<u32, Seq<char>>,
    members: Set<u32>,
) -> (Result<RunningView, ChainErrorView>, Set<u32>) {
    match spawned {
        Ok(pid) => (Ok(RunningView { program: spec.program, pid }), members.insert(pid)),
        Err(cause) => (Err(ChainErrorView::Spawn { program: spec.program, cause }), members),
    }
}

/// The effect of a wait report: the identifier is no longer members, whatever the
/// wait brought; the exit outcome is handed on as it is, and a failed wait is a
/// wait error.
pub open spec fn wait_step(
    running: RunningView,
    waited: Result<ExitOutcome, Seq<char>>,
    members: Set<u32>,
) -> (Result<ExitOutcome, ChainErrorView>, Set<u32>) {
    let launched = match waited {
        Ok(outcome) => Ok(outcome),
        Err(cause) => Err(ChainErrorView::Wait { program: running.program, cause }),
    };
    (launched, members.remove(running.pid))
}

impl Launch {
    /// Prepares the launch of `spec`.
    pub fn new(spec: ProcessSpec) -> (launch: Launch)
        ensures
            launch@ == spec@,
    {
        Launch { spec }
    }

    /// The program to spawn.
    pub fn program(&self) -> (program: &String)
        ensures
            program@ == self@.program,
    {
        &self.spec.program
    }

    /// The arguments to spawn it with.
    pub fn args(&self) -> (args: &Vec<String>)
        ensures
            args.deep_view() == self@.args,
    {
        &self.spec.args
    }

    /// Takes the report of the spawn attempt.  The identifier of a spawned process
    /// is inserted into `registry` here, before the caller waits for it.
    pub fn spawned(self, spawned: Result<u32, String>, registry: &mut ProcessRegistry) -> (started:
        Result<Running, ChainError>)
        ensures
            (running_view(started), final(registry)@) == spawn_step(
                self@,
                spawn_view(spawned),
                old(registry)@,
            ),
    {
        match spawned {
            Ok(pid) => {
                registry.insert(pid);
                Ok(Running { program: self.spec.program, pid })
            },
            Err(cause) => Err(ChainError::Spawn { program: self.spec.program, cause }),
        }
    }
}

impl Running {
    /// The program that runs.
    pub fn program(&self) -> (program: &String)
        ensures
            program@ == self@.program,
    {
        &self.program
    }

    /// The identifier of the process to wait for.
    pub fn pid(&self) -> (pid: u32)
        ensures
            pid == self@.pid,
    {
        self.pid
    }

    /// Takes the report of the wait.  The identifier is removed from `registry`
    /// here, after the wait has ended and whatever it brought.
    pub fn exited(self, waited: Result<ExitOutcome, String>, registry: &mut ProcessRegistry) -> (launched:
        Result<ExitOutcome, ChainError>)
        ensures
            (launched_view(launched), final(registry)@) == wait_step(
                self@,
                wait_view(waited),
                old(registry)@,
            ),
    {
        registry.remove(self.pid);
        match waited {
            Ok(outcome) => Ok(outcome),
            Err(cause) => Err(ChainError::Wait { program: self.program, cause }),
        }
    }
}

} // verus!
