//! Running the programs of one chain in order.
//!
//! After each launch the executor decides how the chain goes on.  A launch that
//! failed, or a program that ended without success, fails the chain.  A program
//! that succeeded as the last of the chain completes it.  Either way the executor
//! sweeps the registry, so that every process still alive is told to terminate.
//! Only a program that succeeded with more to follow lets the chain go on, and
//! leaves the registry alone.

use crate::error::{result_view, ChainError, ChainErrorView};
use crate::launcher::{launched_view, Launch};
use crate::process::{ExitOutcome, ProcessSpec, ProcessSpecView};
use crate::registry::{teardown, ProcessRegistry};
use vstd::prelude::*;

verus! {

/// A chain with a program that is due to be launched.
#[derive(Debug)]
pub struct ChainRun {
    chain: Vec<ProcessSpec>,
    step: usize,
}

/// A `ChainRun` as mathematical values: the chain, and the index of the program that
/// is due.
pub struct ChainRunView {
    pub chain: Seq<ProcessSpecView>,
    pub step: int,
}

/// The end of a chain.
#[derive(Debug)]
pub struct Finished {
    /// The identifiers that the caller must signal to terminate, each exactly once.
    pub signal: Vec<u32>,
    /// How the chain ended.
    pub result: Result<(), ChainError>,
}

/// Where a chain stands between two launches.
#[derive(Debug)]
pub enum Stage {
    /// The next program is to be launched.
    Launch(ChainRun),
    /// The chain has ended.
    Finished(Finished),
}

/// A `Stage` as mathematical values.
pub enum StageView {
    Launch(ChainRunView),
    Finished { signal: Set<u32>, result: Result<(), ChainErrorView> },
}

impl ChainRun {
    #[verifier::type_invariant]
    spec fn in_range(self) -> bool {
        self.step < self.chain.len()
    }
}

impl View for ChainRun {
    type V = ChainRunView;

    closed spec fn view(&self) -> ChainRunView {
        ChainRunView { chain: self.chain.deep_view(), step: self.step as int }
    }
}

impl View for Stage {
    type V = StageView;

    open spec fn view(&self) -> StageView {
        match self {
            Stage::Launch(run) => StageView::Launch(run@),
            Stage::Finished(finished) => StageView::Finished {
                signal: finished.signal@.to_set(),
                result: result_view(finished.result),
            },
        }
    }
}

/// Where a chain stands before its first launch.  A chain without programs has
/// ended at once, with success and without a sweep.
pub open spec fn first_stage(chain: Seq<ProcessSpecView>) -> StageView {
    if chain.len() == 0 {
        StageView::Finished { signal: Set::empty(), result: Ok(()) }
    } else {
        StageView::Launch(ChainRunView { chain, step: 0 })
    }
}

/// How the chain ends after the launch of the program at `step`, if it ends there.
pub open spec fn verdict(
    chain: Seq<ProcessSpecView>,
    step: int,
    launched: Result<ExitOutcome, ChainErrorView>,
) -> Option<Result<(), ChainErrorView>> {
    match launched {
        Err(error) => Some(Err(error)),
        Ok(outcome) => if !outcome.succeeded() {
            Some(Err(ChainErrorView::ProcessFailure { program: chain[step].program, outcome }))
        } else if step + 1 == chain.len() {
            Some(Ok(()))
        } else {
            None
        },
    }
}

/// The effect of a launch on the chain and on the registry: where the chain ends,
/// every member of the registry is to be signalled and none is left.
pub open spec fn next_stage(
    run: ChainRunView,
    launched: Result<ExitOutcome, ChainErrorView>,
    members: Set<u32>,
) -> (StageView, Set<u32>) {
    match verdict(run.chain, run.step, launched) {
        Some(result) => (StageView::Finished { signal: members, result }, Set::empty()),
        None => (StageView::Launch(ChainRunView { chain: run.chain, step: run.step + 1 }), members),
    }
}

impl ChainRun {
    /// Takes up `chain` before its first launch.
    pub fn start(chain: Vec<ProcessSpec>) -> (stage: Stage)
        ensures
            stage@ == first_stage(chain.deep_view()),
            stage matches Stage::Finished(finished) ==> finished.signal@.len() == 0,
    {
        if chain.len() == 0 {
            let signal: Vec<u32> = Vec::new();
            assert(signal@.to_set() =~= Set::<u32>::empty());
            Stage::Finished(Finished { signal, result: Ok(()) })
        } else {
            Stage::Launch(ChainRun { chain, step: 0 })
        }
    }

    /// The program that is due to be launched.
    pub fn current(&self) -> (spec: &ProcessSpec)
        ensures
            0 <= self@.step < self@.chain.len(),
            spec@ == self@.chain[self@.step],
    {
        proof {
            use_type_invariant(self);
        }
        &self.chain[self.step]
    }

    /// The launch of the program that is due.
    pub fn launch(&self) -> (launch: Launch)
        ensures
            0 <= self@.step < self@.chain.len(),
            launch@ == self@.chain[self@.step],
    {
        Launch::new(self.current().duplicate())
    }

    /// Takes the result of the launch of the current program and decides how the
    /// chain goes on.
    pub fn advance(self, launched: Result<ExitOutcome, ChainError>, registry: &mut ProcessRegistry) -> (stage:
        Stage)
        ensures
            (stage@, final(registry)@) == next_stage(
                self@,
                launched_view(launched),
                old(registry)@,
            ),
            stage matches Stage::Finished(finished) ==> finished.signal@.no_duplicates()
                && finished.signal@.len() == old(registry)@.len(),
    {
        proof {
            use_type_invariant(&self);
        }
        let result = match launched {
            Err(error) => Err(error),
            Ok(outcome) => {
                if !outcome.success() {
                    let program = self.chain[self.step].program.clone();
                    Err(ChainError::ProcessFailure { program, outcome })
                } else if self.step + 1 == self.chain.len() {
                    Ok(())
                } else {
                    return Stage::Launch(ChainRun { chain: self.chain, step: self.step + 1 });
                }
            },
        };
        let signal = teardown(registry);
        Stage::Finished(Finished { signal, result })
    }
}

} // verus!
