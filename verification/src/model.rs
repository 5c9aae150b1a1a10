//! The whole run as a state machine.
//!
//! Every chain is a unit that moves on when one of three things is reported: a spawn
//! attempt, the end of a wait, or the executor's decision after a launch.  The
//! reports of different units may come in any order.  What each report does is
//! exactly what the launcher and the chain executor do with it; the model only puts
//! the units side by side over the one registry that they share, and remembers
//! which identifiers ever entered the registry and which were ever handed out to be
//! signalled.

use crate::chain::{first_stage, next_stage, ChainRunView, StageView};
use crate::error::ChainErrorView;
use crate::launcher::{spawn_step, wait_step, RunningView};
use crate::orchestrator::first_failure;
use crate::process::{ExitOutcome, ProcessSpecView};
use vstd::prelude::*;

verus! {

/// Where one chain stands.
pub enum Unit {
    /// The program at `step` is due to be spawned.
    Launching { step: int },
    /// The program at `step` runs as process `pid`, which is registered and waited
    /// for.
    Waiting { step: int, pid: u32 },
    /// The launch of the program at `step` has returned and the executor has not
    /// decided yet.
    Returned { step: int, launched: Result<ExitOutcome, ChainErrorView> },
    /// The chain has ended.
    Finished { result: Result<(), ChainErrorView> },
}

/// The state of a whole run.
pub struct Run {
    /// The chains that were submitted.
    pub chains: Seq<Seq<ProcessSpecView>>,
    /// Where each chain stands.
    pub units: Seq<Unit>,
    /// The members of the shared registry.
    pub registry: Set<u32>,
    /// Every identifier that was ever inserted into the registry.
    pub inserted: Set<u32>,
    /// Every identifier that a sweep has handed out to be signalled.
    pub signalled: Set<u32>,
    /// The results of the chains that have ended, in the order in which they ended.
    pub results: Seq<Result<(), ChainErrorView>>,
}

/// What is reported to the run.
pub enum Event {
    /// The spawn attempt of `unit` brought a process identifier or failed.
    Spawn { unit: int, spawned: Result<u32, Seq<char>> },
    /// The wait of `unit` ended with an exit outcome or failed.
    Wait { unit: int, waited: Result<ExitOutcome, Seq<char>> },
    /// The executor of `unit` decides on the launch that has returned.
    Decide { unit: int },
}

/// Unit `unit` waits for process `pid`.
pub open spec fn waits_for(run: Run, unit: int, pid: u32) -> bool {
    &&& 0 <= unit < run.units.len()
    &&& run.units[unit] matches Unit::Waiting { pid: awaited, .. }
    &&& awaited == pid
}

/// Process `pid` was spawned and the end of its wait has not been reported.
pub open spec fn is_live(run: Run, pid: u32) -> bool {
    exists|unit: int| waits_for(run, unit, pid)
}

/// Every chain has ended.
pub open spec fn is_over(run: Run) -> bool {
    forall|unit: int| 0 <= unit < run.units.len() ==> #[trigger] run.units[unit] is Finished
}

/// The unit of a chain that stands at `stage`.
pub open spec fn unit_at(stage: StageView) -> Unit {
    match stage {
        StageView::Launch(chain_run) => Unit::Launching { step: chain_run.step },
        StageView::Finished { result, .. } => Unit::Finished { result },
    }
}

/// The results of the chains that have ended among the first `count` units, in the
/// order of the units.
pub open spec fn ended_at_start(units: Seq<Unit>, count: int) -> Seq<Result<(), ChainErrorView>>
    decreases count,
{
    if count <= 0 {
        Seq::empty()
    } else {
        let earlier = ended_at_start(units, count - 1);
        match units[count - 1] {
            Unit::Finished { result } => earlier.push(result),
            _ => earlier,
        }
    }
}

/// The run before anything is reported: an empty registry, and every chain before
/// its first launch.
pub open spec fn initial(chains: Seq<Seq<ProcessSpecView>>) -> Run {
    let units = Seq::new(chains.len(), |unit: int| unit_at(first_stage(chains[unit])));
    Run {
        chains,
        units,
        registry: Set::empty(),
        inserted: Set::empty(),
        signalled: Set::empty(),
        results: ended_at_start(units, units.len() as int),
    }
}

/// Whether `event` can be reported in `run`.  A unit reports what it is due to
/// report, and the operating system gives a new process no identifier of a process
/// that is still waited for.
pub open spec fn enabled(run: Run, event: Event) -> bool {
    match event {
        Event::Spawn { unit, spawned } => {
            &&& 0 <= unit < run.units.len()
            &&& run.units[unit] is Launching
            &&& spawned matches Ok(pid) ==> !is_live(run, pid)
        },
        Event::Wait { unit, .. } => 0 <= unit < run.units.len() && run.units[unit] is Waiting,
        Event::Decide { unit } => 0 <= unit < run.units.len() && run.units[unit] is Returned,
    }
}

/// The run after `event` was reported.
pub open spec fn next(run: Run, event: Event) -> Run {
    match event {
        Event::Spawn { unit, spawned } => match run.units[unit] {
            Unit::Launching { step } => {
                let (started, registry) = spawn_step(run.chains[unit][step], spawned, run.registry);
                let moved = match started {
                    Ok(running) => Unit::Waiting { step, pid: running.pid },
                    Err(error) => Unit::Returned { step, launched: Err(error) },
                };
                let inserted = match spawned {
                    Ok(pid) => run.inserted.insert(pid),
                    Err(_) => run.inserted,
                };
                Run { units: run.units.update(unit, moved), registry, inserted, ..run }
            },
            _ => run,
        },
        Event::Wait { unit, waited } => match run.units[unit] {
            Unit::Waiting { step, pid } => {
                let running = RunningView { program: run.chains[unit][step].program, pid };
                let (launched, registry) = wait_step(running, waited, run.registry);
                let moved = Unit::Returned { step, launched };
                Run { units: run.units.update(unit, moved), registry, ..run }
            },
            _ => run,
        },
        Event::Decide { unit } => match run.units[unit] {
            Unit::Returned { step, launched } => {
                let chain_run = ChainRunView { chain: run.chains[unit], step };
                let (stage, registry) = next_stage(chain_run, launched, run.registry);
                let (signalled, results) = match stage {
                    StageView::Finished { signal, result } => (
                        run.signalled.union(signal),
                        run.results.push(result),
                    ),
                    StageView::Launch(_) => (run.signalled, run.results),
                };
                Run { units: run.units.update(unit, unit_at(stage)), registry, signalled, results, ..run }
            },
            _ => run,
        },
    }
}

/// Whether `events` can be reported in `run` one after another.
pub open spec fn admissible(run: Run, events: Seq<Event>) -> bool
    decreases events.len(),
{
    events.len() == 0 || (enabled(run, events[0]) && admissible(
        next(run, events[0]),
        events.drop_first(),
    ))
}

/// The run after `events` were reported one after another.
pub open spec fn after(run: Run, events: Seq<Event>) -> Run
    decreases events.len(),
{
    if events.len() == 0 {
        run
    } else {
        after(next(run, events[0]), events.drop_first())
    }
}

/// The result of the whole run once it is over.
pub open spec fn overall(run: Run) -> Result<(), ChainErrorView> {
    first_failure(run.results)
}

} // verus!
