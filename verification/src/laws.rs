//! What holds of every run.

use crate::chain::first_stage;
use crate::error::ChainErrorView;
use crate::model::{
    admissible, after, enabled, ended_at_start, initial, is_live, is_over, next, overall, unit_at,
    waits_for, Event, Run, Unit,
};
use crate::orchestrator::lemma_first_failure;
use crate::process::ProcessSpecView;
use crate::registry::sweep;
use vstd::prelude::*;

verus! {

/// The program that `unit` is busy with is one of its chain.
pub open spec fn in_range(run: Run, unit: int) -> bool {
    match run.units[unit] {
        Unit::Launching { step } => 0 <= step < run.chains[unit].len(),
        Unit::Waiting { step, .. } => 0 <= step < run.chains[unit].len(),
        Unit::Returned { step, .. } => 0 <= step < run.chains[unit].len(),
        Unit::Finished { .. } => true,
    }
}

/// What holds of a run at every moment:
/// there is one unit for each chain, busy with a program of that chain;
/// every member of the registry is the identifier of a process that is waited for;
/// every process that is waited for was inserted into the registry, and is still a
/// member unless a sweep has handed it out to be signalled;
/// and no two units wait for the same process.
pub open spec fn consistent(run: Run) -> bool {
    &&& run.units.len() == run.chains.len()
    &&& forall|unit: int| 0 <= unit < run.units.len() ==> #[trigger] in_range(run, unit)
    &&& forall|pid: u32| #[trigger] run.registry.contains(pid) ==> is_live(run, pid)
    &&& forall|unit: int, pid: u32| #[trigger]
        waits_for(run, unit, pid) ==> run.inserted.contains(pid) && (run.registry.contains(pid)
            || run.signalled.contains(pid))
    &&& forall|a: int, b: int, pid: u32| #[trigger]
        waits_for(run, a, pid) && #[trigger] waits_for(run, b, pid) ==> a == b
}

/// The report tells of no failure: the spawn brought a process, or the process
/// returned with success.
pub open spec fn reports_success(event: Event) -> bool {
    match event {
        Event::Spawn { spawned, .. } => spawned is Ok,
        Event::Wait { waited, .. } => waited matches Ok(outcome) && outcome.succeeded(),
        Event::Decide { .. } => true,
    }
}

/// Nothing has failed so far: every launch that has returned brought success, and
/// every chain that has ended has ended with success.
spec fn unfailed(run: Run) -> bool {
    &&& forall|unit: int|
        0 <= unit < run.units.len() ==> match #[trigger] run.units[unit] {
            Unit::Returned { launched, .. } => launched matches Ok(outcome) && outcome.succeeded(),
            Unit::Finished { result } => result is Ok,
            _ => true,
        }
    &&& forall|i: int| 0 <= i < run.results.len() ==> #[trigger] run.results[i] is Ok
}

/// Chain `unit` has ended with `result`.
pub open spec fn ended_with(run: Run, unit: int, result: Result<(), ChainErrorView>) -> bool {
    0 <= unit < run.units.len() && run.units[unit] == (Unit::Finished { result })
}

/// `result` stands at place `place` of `results`.
spec fn stands_at(
    results: Seq<Result<(), ChainErrorView>>,
    place: int,
    result: Result<(), ChainErrorView>,
) -> bool {
    0 <= place < results.len() && results[place] == result
}

/// The recorded results are those of the chains that have ended.
spec fn recorded(run: Run) -> bool {
    &&& forall|unit: int, result: Result<(), ChainErrorView>| #[trigger]
        ended_with(run, unit, result) ==> exists|place: int| stands_at(run.results, place, result)
    &&& forall|place: int, result: Result<(), ChainErrorView>| #[trigger]
        stands_at(run.results, place, result) ==> exists|unit: int| ended_with(run, unit, result)
}

/// A run is consistent before anything is reported.
proof fn lemma_initial_consistent(chains: Seq<Seq<ProcessSpecView>>)
    ensures
        consistent(initial(chains)),
{
}

/// A report that can be made keeps a consistent run consistent.
proof fn lemma_next_consistent(run: Run, event: Event)
    requires
        consistent(run),
        enabled(run, event),
    ensures
        consistent(next(run, event)),
{
    let later = next(run, event);
    match event {
        Event::Spawn { unit, spawned } => {
            assert forall|other: int, pid: u32| other != unit implies (waits_for(later, other, pid)
                <==> waits_for(run, other, pid)) by {}
            if let Ok(pid) = spawned {
                assert(waits_for(later, unit, pid));
            }
            assert forall|other: int| 0 <= other < later.units.len() implies #[trigger] in_range(
                later,
                other,
            ) by {
                assert(in_range(run, other));
            }
        },
        Event::Wait { unit, waited } => {
            assert forall|other: int, pid: u32| other != unit implies (waits_for(later, other, pid)
                <==> waits_for(run, other, pid)) by {}
            assert forall|other: int, pid: u32| #[trigger]
                waits_for(later, other, pid) implies later.inserted.contains(pid) && (
            later.registry.contains(pid) || later.signalled.contains(pid)) by {
                assert(waits_for(run, unit, run.units[unit]->Waiting_pid));
            }
            assert forall|other: int| 0 <= other < later.units.len() implies #[trigger] in_range(
                later,
                other,
            ) by {
                assert(in_range(run, other));
            }
        },
        Event::Decide { unit } => {
            assert forall|other: int, pid: u32| other != unit implies (waits_for(later, other, pid)
                <==> waits_for(run, other, pid)) by {}
            assert forall|other: int| 0 <= other < later.units.len() implies #[trigger] in_range(
                later,
                other,
            ) by {
                assert(in_range(run, other));
            }
        },
    }
}

/// Reports that can be made one after another keep a consistent run consistent.
proof fn lemma_after_consistent(run: Run, events: Seq<Event>)
    requires
        consistent(run),
        admissible(run, events),
    ensures
        consistent(after(run, events)),
    decreases events.len(),
{
    if events.len() > 0 {
        lemma_next_consistent(run, events[0]);
        lemma_after_consistent(next(run, events[0]), events.drop_first());
    }
}

/// Once every chain has ended, a consistent run has an empty registry.
proof fn lemma_registry_empty_when_over(run: Run)
    requires
        consistent(run),
        is_over(run),
    ensures
        run.registry == Set::<u32>::empty(),
{
}

/// The chains of a run never change.
proof fn lemma_after_keeps_chains(run: Run, events: Seq<Event>)
    ensures
        after(run, events).chains == run.chains,
    decreases events.len(),
{
    if events.len() > 0 {
        lemma_after_keeps_chains(next(run, events[0]), events.drop_first());
    }
}

proof fn lemma_ended_at_start_unfailed(chains: Seq<Seq<ProcessSpecView>>, count: int)
    requires
        count <= chains.len(),
    ensures
        forall|i: int|
            0 <= i < ended_at_start(initial(chains).units, count).len() ==> #[trigger] ended_at_start(
                initial(chains).units,
                count,
            )[i] is Ok,
    decreases count,
{
    if count > 0 {
        lemma_ended_at_start_unfailed(chains, count - 1);
    }
}

proof fn lemma_initial_unfailed(chains: Seq<Seq<ProcessSpecView>>)
    ensures
        unfailed(initial(chains)),
{
    lemma_ended_at_start_unfailed(chains, chains.len() as int);
}

proof fn lemma_after_unfailed(run: Run, events: Seq<Event>)
    requires
        unfailed(run),
        admissible(run, events),
        forall|i: int| 0 <= i < events.len() ==> reports_success(#[trigger] events[i]),
    ensures
        unfailed(after(run, events)),
    decreases events.len(),
{
    if events.len() > 0 {
        lemma_after_unfailed(next(run, events[0]), events.drop_first());
    }
}

proof fn lemma_ended_at_start_recorded(run: Run, count: int)
    requires
        0 <= count <= run.units.len(),
    ensures
        forall|unit: int, result: Result<(), ChainErrorView>|
            unit < count && #[trigger] ended_with(run, unit, result) ==> exists|place: int|
                stands_at(ended_at_start(run.units, count), place, result),
        forall|place: int, result: Result<(), ChainErrorView>| #[trigger]
            stands_at(ended_at_start(run.units, count), place, result) ==> exists|unit: int|
                unit < count && ended_with(run, unit, result),
    decreases count,
{
    if count > 0 {
        lemma_ended_at_start_recorded(run, count - 1);
        let earlier = ended_at_start(run.units, count - 1);
        let ended = ended_at_start(run.units, count);
        assert forall|unit: int, result: Result<(), ChainErrorView>|
            unit < count && #[trigger] ended_with(run, unit, result) implies exists|place: int|
            stands_at(ended, place, result) by {
            if unit < count - 1 {
                let place = choose|place: int| stands_at(earlier, place, result);
                assert(stands_at(ended, place, result));
            } else {
                assert(stands_at(ended, ended.len() - 1, result));
            }
        }
        assert forall|place: int, result: Result<(), ChainErrorView>| #[trigger]
            stands_at(ended, place, result) implies exists|unit: int|
            unit < count && ended_with(run, unit, result) by {
            if place < earlier.len() {
                assert(stands_at(earlier, place, result));
            } else {
                assert(count - 1 < count && ended_with(run, count - 1, result));
            }
        }
    }
}

proof fn lemma_initial_recorded(chains: Seq<Seq<ProcessSpecView>>)
    ensures
        recorded(initial(chains)),
{
    let run = initial(chains);
    lemma_ended_at_start_recorded(run, run.units.len() as int);
    assert(run.results == ended_at_start(run.units, run.units.len() as int));
}

proof fn lemma_next_recorded(run: Run, event: Event)
    requires
        recorded(run),
        enabled(run, event),
    ensures
        recorded(next(run, event)),
{
    let later = next(run, event);
    let moved = match event {
        Event::Spawn { unit, .. } => unit,
        Event::Wait { unit, .. } => unit,
        Event::Decide { unit } => unit,
    };
    assert forall|unit: int, result: Result<(), ChainErrorView>| #[trigger]
        ended_with(later, unit, result) implies exists|place: int|
        stands_at(later.results, place, result) by {
        if unit != moved {
            assert(ended_with(run, unit, result));
            let place = choose|place: int| stands_at(run.results, place, result);
            assert(stands_at(later.results, place, result));
        } else {
            assert(stands_at(later.results, later.results.len() - 1, result));
        }
    }
    assert forall|place: int, result: Result<(), ChainErrorView>| #[trigger]
        stands_at(later.results, place, result) implies exists|unit: int|
        ended_with(later, unit, result) by {
        if place < run.results.len() {
            assert(stands_at(run.results, place, result));
            let unit = choose|unit: int| ended_with(run, unit, result);
            assert(ended_with(later, unit, result));
        } else {
            assert(ended_with(later, moved, result));
        }
    }
}

proof fn lemma_after_recorded(run: Run, events: Seq<Event>)
    requires
        recorded(run),
        admissible(run, events),
    ensures
        recorded(after(run, events)),
    decreases events.len(),
{
    if events.len() > 0 {
        lemma_next_recorded(run, events[0]);
        lemma_after_recorded(next(run, events[0]), events.drop_first());
    }
}

/// At every moment of a run, every member of the registry is the identifier of a
/// process that is waited for, and every process that is waited for was inserted
/// into the registry and is still a member unless a sweep has handed it out to be
/// signalled.
pub proof fn law_registry_holds_the_live_processes(
    chains: Seq<Seq<ProcessSpecView>>,
    events: Seq<Event>,
)
    requires
        admissible(initial(chains), events),
    ensures
        consistent(after(initial(chains), events)),
{
    lemma_initial_consistent(chains);
    lemma_after_consistent(initial(chains), events);
}

/// If every spawn brings a process and every process returns with success, then
/// once every chain has ended the run as a whole has succeeded and the registry is
/// empty.
pub proof fn law_success_when_every_step_succeeds(
    chains: Seq<Seq<ProcessSpecView>>,
    events: Seq<Event>,
)
    requires
        admissible(initial(chains), events),
        forall|i: int| 0 <= i < events.len() ==> reports_success(#[trigger] events[i]),
        is_over(after(initial(chains), events)),
    ensures
        overall(after(initial(chains), events)) is Ok,
        after(initial(chains), events).registry == Set::<u32>::empty(),
{
    let end = after(initial(chains), events);
    lemma_initial_consistent(chains);
    lemma_after_consistent(initial(chains), events);
    lemma_registry_empty_when_over(end);
    lemma_initial_unfailed(chains);
    lemma_after_unfailed(initial(chains), events);
    lemma_first_failure(end.results);
}

/// Whenever a chain ends, by a failure or after the success of its last program,
/// the sweep hands out every member of the registry and leaves none: from then on
/// every process that is still waited for, of whatever chain, has been handed out
/// to be signalled.
pub proof fn law_end_of_chain_signals_every_live_process(
    chains: Seq<Seq<ProcessSpecView>>,
    events: Seq<Event>,
    unit: int,
)
    requires
        admissible(initial(chains), events),
        enabled(after(initial(chains), events), Event::Decide { unit }),
        next(after(initial(chains), events), Event::Decide { unit }).units[unit] is Finished,
    ensures
        ({
            let run = after(initial(chains), events);
            let later = next(run, Event::Decide { unit });
            &&& later.signalled == run.signalled.union(run.registry)
            &&& later.registry == Set::<u32>::empty()
            &&& forall|pid: u32| is_live(later, pid) ==> later.signalled.contains(pid)
        }),
{
    let run = after(initial(chains), events);
    let later = next(run, Event::Decide { unit });
    lemma_initial_consistent(chains);
    lemma_after_consistent(initial(chains), events);
    lemma_next_consistent(run, Event::Decide { unit });
}

/// If a step of a chain fails, then as soon as its executor has decided on it,
/// every process that is waited for in any other chain has been handed out to be
/// signalled.
pub proof fn law_failure_signals_every_other_process(
    chains: Seq<Seq<ProcessSpecView>>,
    events: Seq<Event>,
    unit: int,
)
    requires
        admissible(initial(chains), events),
        enabled(after(initial(chains), events), Event::Decide { unit }),
        (after(initial(chains), events).units[unit] matches Unit::Returned { launched, .. }
            && !(launched matches Ok(outcome) && outcome.succeeded())),
    ensures
        ({
            let later = next(after(initial(chains), events), Event::Decide { unit });
            &&& later.units[unit] matches Unit::Finished { result } && result is Err
            &&& later.registry == Set::<u32>::empty()
            &&& forall|other: int, pid: u32|
                other != unit && waits_for(later, other, pid) ==> later.signalled.contains(pid)
        }),
{
    let run = after(initial(chains), events);
    let later = next(run, Event::Decide { unit });
    law_end_of_chain_signals_every_live_process(chains, events, unit);
    assert forall|other: int, pid: u32|
        other != unit && waits_for(later, other, pid) implies later.signalled.contains(pid) by {
        assert(is_live(later, pid));
    }
}

/// If the only program of a one-step chain succeeds, then as soon as its executor
/// has decided on it, every process that is waited for in any other chain has been
/// handed out to be signalled.
pub proof fn law_one_step_success_signals_every_other_process(
    chains: Seq<Seq<ProcessSpecView>>,
    events: Seq<Event>,
    unit: int,
)
    requires
        admissible(initial(chains), events),
        enabled(after(initial(chains), events), Event::Decide { unit }),
        chains[unit].len() == 1,
        (after(initial(chains), events).units[unit] matches Unit::Returned { launched, .. }
            && launched matches Ok(outcome) && outcome.succeeded()),
    ensures
        ({
            let later = next(after(initial(chains), events), Event::Decide { unit });
            &&& later.units[unit] == Unit::Finished { result: Ok(()) }
            &&& later.registry == Set::<u32>::empty()
            &&& forall|other: int, pid: u32|
                other != unit && waits_for(later, other, pid) ==> later.signalled.contains(pid)
        }),
{
    let run = after(initial(chains), events);
    let later = next(run, Event::Decide { unit });
    lemma_initial_consistent(chains);
    lemma_after_consistent(initial(chains), events);
    lemma_after_keeps_chains(initial(chains), events);
    assert(in_range(run, unit));
    law_end_of_chain_signals_every_live_process(chains, events, unit);
    assert forall|other: int, pid: u32|
        other != unit && waits_for(later, other, pid) implies later.signalled.contains(pid) by {
        assert(is_live(later, pid));
    }
}

/// The registry is only ever asked to remove an identifier that was inserted
/// before, and only ever asked to insert an identifier that is not a member.
pub proof fn law_registry_discipline(
    chains: Seq<Seq<ProcessSpecView>>,
    events: Seq<Event>,
    event: Event,
)
    requires
        admissible(initial(chains), events),
        enabled(after(initial(chains), events), event),
    ensures
        ({
            let run = after(initial(chains), events);
            &&& event matches Event::Wait { unit, .. } ==> run.units[unit] matches Unit::Waiting {
                pid,
                ..
            } && run.inserted.contains(pid) && next(run, event).registry == run.registry.remove(pid)
            &&& event matches Event::Spawn { spawned: Ok(pid), .. } ==> !run.registry.contains(pid)
                && next(run, event).registry == run.registry.insert(pid)
            &&& event matches Event::Spawn { spawned: Err(_), .. } ==> next(run, event).registry
                == run.registry
        }),
{
    let run = after(initial(chains), events);
    lemma_initial_consistent(chains);
    lemma_after_consistent(initial(chains), events);
    match event {
        Event::Wait { unit, .. } => {
            assert(waits_for(run, unit, run.units[unit]->Waiting_pid));
        },
        _ => {},
    }
}

/// A sweep after a sweep finds nothing to signal and leaves the registry empty, as
/// does a sweep of an empty registry.
pub proof fn law_sweep_is_idempotent(members: Set<u32>)
    ensures
        sweep(sweep(members).1) == (Set::<u32>::empty(), Set::<u32>::empty()),
        sweep(Set::<u32>::empty()) == (Set::<u32>::empty(), Set::<u32>::empty()),
{
}

/// The run as a whole fails exactly when a chain has failed, and then with the
/// failure of a chain that has ended.
pub proof fn law_run_fails_exactly_when_a_chain_fails(
    chains: Seq<Seq<ProcessSpecView>>,
    events: Seq<Event>,
)
    requires
        admissible(initial(chains), events),
    ensures
        ({
            let end = after(initial(chains), events);
            &&& overall(end) is Err <==> exists|unit: int, error: ChainErrorView|
                ended_with(end, unit, Err(error))
            &&& overall(end) is Err ==> exists|unit: int| ended_with(end, unit, overall(end))
        }),
{
    let end = after(initial(chains), events);
    lemma_initial_recorded(chains);
    lemma_after_recorded(initial(chains), events);
    lemma_first_failure(end.results);
    if overall(end) is Err {
        let k = choose|k: int| 0 <= k < end.results.len() && end.results[k] == overall(end);
        assert(stands_at(end.results, k, overall(end)));
        let unit = choose|unit: int| ended_with(end, unit, overall(end));
        assert(ended_with(end, unit, Err(overall(end)->Err_0)));
    }
    if exists|unit: int, error: ChainErrorView| ended_with(end, unit, Err(error)) {
        let (unit, error) = choose|unit: int, error: ChainErrorView|
            ended_with(end, unit, Err(error));
        let place = choose|place: int| stands_at(end.results, place, Err(error));
        assert(end.results[place] is Err);
    }
}

} // verus!
