use spawny::chain::{ChainRun, Stage};
use spawny::error::ChainError;
use spawny::launcher::Running;
use spawny::orchestrator::{exit_code, overall_result};
use spawny::process::{ExitOutcome, ProcessSpec};
use spawny::registry::ProcessRegistry;
use spawny::tokens::process_chains;

fn call(name: &str, args: &[&str]) -> ProcessSpec {
    ProcessSpec {
        program: name.to_string(),
        args: args.iter().map(|arg| arg.to_string()).collect(),
    }
}

fn begin(chain: Vec<ProcessSpec>) -> ChainRun {
    match ChainRun::start(chain) {
        Stage::Launch(run) => run,
        Stage::Finished(finished) => panic!("the chain has ended: {:?}", finished.result),
    }
}

fn go_on(stage: Stage) -> ChainRun {
    match stage {
        Stage::Launch(run) => run,
        Stage::Finished(finished) => panic!("the chain has ended: {:?}", finished.result),
    }
}

fn end(stage: Stage) -> (Vec<u32>, Result<(), ChainError>) {
    match stage {
        Stage::Launch(run) => panic!("the chain goes on with {:?}", run.current()),
        Stage::Finished(finished) => {
            let mut signal = finished.signal;
            signal.sort();
            (signal, finished.result)
        }
    }
}

fn spawn(run: &ChainRun, pid: u32, registry: &mut ProcessRegistry) -> Running {
    assert!(!registry.contains(pid));
    match run.launch().spawned(Ok(pid), registry) {
        Ok(running) => {
            assert!(registry.contains(pid));
            running
        }
        Err(error) => panic!("unexpected failure: {:?}", error),
    }
}

#[test]
fn quick_success_ends_a_long_running_sibling() {
    let chains = vec![vec![call("true", &[])], vec![call("sleep", &["5"])]];
    let mut registry = ProcessRegistry::new();
    let quick = begin(chains[0].clone());
    let slow = begin(chains[1].clone());
    let quick_process = spawn(&quick, 100, &mut registry);
    let slow_process = spawn(&slow, 101, &mut registry);

    let launched = quick_process.exited(Ok(ExitOutcome::Code(0)), &mut registry);
    let (signal, quick_result) = end(quick.advance(launched, &mut registry));
    assert_eq!(quick_result, Ok(()));
    assert_eq!(signal, vec![101]);
    assert!(registry.is_empty());

    // The sibling dies of the signal.  Its chain reports that as a failure, and the
    // run reports it in turn, since no other failure came before.
    let launched = slow_process.exited(Ok(ExitOutcome::Signal(15)), &mut registry);
    let (signal, slow_result) = end(slow.advance(launched, &mut registry));
    assert_eq!(signal, Vec::<u32>::new());
    assert_eq!(
        slow_result,
        Err(ChainError::ProcessFailure {
            program: "sleep".to_string(),
            outcome: ExitOutcome::Signal(15),
        })
    );
    assert!(registry.is_empty());

    let overall = overall_result(vec![quick_result, slow_result]);
    assert_eq!(
        overall,
        Err(ChainError::ProcessFailure {
            program: "sleep".to_string(),
            outcome: ExitOutcome::Signal(15),
        })
    );
}

#[test]
fn failing_program_fails_the_run() {
    let mut registry = ProcessRegistry::new();
    let run = begin(vec![call("false", &[])]);
    let process = spawn(&run, 200, &mut registry);
    let launched = process.exited(Ok(ExitOutcome::Code(1)), &mut registry);
    let (signal, result) = end(run.advance(launched, &mut registry));
    assert_eq!(signal, Vec::<u32>::new());
    assert!(registry.is_empty());

    let overall = overall_result(vec![result]);
    assert_ne!(exit_code(&overall), 0);
    assert_eq!(exit_code(&overall), 1);
    match overall {
        Ok(()) => panic!("the run cannot succeed"),
        Err(error) => {
            assert_eq!(error.program(), "false");
            let message = error.message();
            assert!(message.contains("false"));
            assert!(message.contains("exit status: 1"));
            assert_eq!(message, "Process false exited with: exit status: 1");
        }
    }
}

#[test]
fn programs_of_a_chain_run_in_order_with_one_sweep_at_the_end() {
    let mut registry = ProcessRegistry::new();
    registry.insert(900);
    let run = begin(vec![call("echo", &["a"]), call("echo", &["b"])]);

    assert_eq!(run.current(), &call("echo", &["a"]));
    let process = spawn(&run, 300, &mut registry);
    let launched = process.exited(Ok(ExitOutcome::Code(0)), &mut registry);
    let run = go_on(run.advance(launched, &mut registry));
    assert_eq!(registry.snapshot(), vec![900]);

    assert_eq!(run.current(), &call("echo", &["b"]));
    let process = spawn(&run, 301, &mut registry);
    let launched = process.exited(Ok(ExitOutcome::Code(0)), &mut registry);
    let (signal, result) = end(run.advance(launched, &mut registry));
    assert_eq!(signal, vec![900]);
    assert!(registry.is_empty());

    assert_eq!(overall_result(vec![result]), Ok(()));
}

#[test]
fn run_succeeds_and_leaves_the_registry_empty_when_every_step_succeeds() {
    let chains = process_chains(
        &vec!["a".to_string(), "::::".to_string(), "b".to_string(), "::".to_string(), "c".to_string()],
        &"::".to_string(),
    );
    assert_eq!(chains, vec![vec![call("a", &[]), call("b", &[])], vec![call("c", &[])]]);
    let mut registry = ProcessRegistry::new();
    let long = begin(chains[0].clone());
    let short = begin(chains[1].clone());
    let a = spawn(&long, 10, &mut registry);
    let c = spawn(&short, 11, &mut registry);

    let launched = c.exited(Ok(ExitOutcome::Code(0)), &mut registry);
    let (signal, short_result) = end(short.advance(launched, &mut registry));
    assert_eq!(signal, vec![10]);

    let launched = a.exited(Ok(ExitOutcome::Code(0)), &mut registry);
    let long = go_on(long.advance(launched, &mut registry));
    let b = spawn(&long, 12, &mut registry);
    let launched = b.exited(Ok(ExitOutcome::Code(0)), &mut registry);
    let (signal, long_result) = end(long.advance(launched, &mut registry));
    assert_eq!(signal, Vec::<u32>::new());

    assert!(registry.is_empty());
    let overall = overall_result(vec![short_result, long_result]);
    assert_eq!(overall, Ok(()));
    assert_eq!(exit_code(&overall), 0);
}

#[test]
fn failure_in_one_chain_signals_the_processes_of_all_others() {
    let mut registry = ProcessRegistry::new();
    let failing = begin(vec![call("build", &[]), call("deploy", &[])]);
    let server = begin(vec![call("server", &[])]);
    let editor = begin(vec![call("editor", &[]), call("cleanup", &[])]);
    let build = spawn(&failing, 20, &mut registry);
    let _server_process = spawn(&server, 21, &mut registry);
    let _editor_process = spawn(&editor, 22, &mut registry);

    let launched = build.exited(Ok(ExitOutcome::Code(2)), &mut registry);
    let (signal, result) = end(failing.advance(launched, &mut registry));
    assert_eq!(signal, vec![21, 22]);
    assert!(registry.is_empty());
    assert_eq!(
        result,
        Err(ChainError::ProcessFailure { program: "build".to_string(), outcome: ExitOutcome::Code(2) })
    );
}

#[test]
fn failed_spawn_in_one_chain_signals_the_processes_of_all_others() {
    let mut registry = ProcessRegistry::new();
    let missing = begin(vec![call("no-such-program", &[])]);
    let server = begin(vec![call("server", &[])]);
    let _server_process = spawn(&server, 31, &mut registry);

    let started = missing
        .launch()
        .spawned(Err("No such file or directory (os error 2)".to_string()), &mut registry);
    let launched = match started {
        Ok(_) => panic!("a failed spawn cannot run"),
        Err(error) => Err(error),
    };
    let (signal, result) = end(missing.advance(launched, &mut registry));
    assert_eq!(signal, vec![31]);
    assert!(registry.is_empty());
    match result {
        Ok(()) => panic!("the chain cannot succeed"),
        Err(error) => assert_eq!(
            error.message(),
            "Failed to spawn no-such-program: No such file or directory (os error 2)"
        ),
    }
}

#[test]
fn process_spawned_after_a_sweep_is_kept_for_the_next_one() {
    let mut registry = ProcessRegistry::new();
    let first = begin(vec![call("true", &[])]);
    let late = begin(vec![call("server", &[])]);
    let process = spawn(&first, 40, &mut registry);
    let launched = process.exited(Ok(ExitOutcome::Code(0)), &mut registry);
    let (signal, _) = end(first.advance(launched, &mut registry));
    assert_eq!(signal, Vec::<u32>::new());

    let server = spawn(&late, 41, &mut registry);
    assert_eq!(registry.snapshot(), vec![41]);
    let launched = server.exited(Ok(ExitOutcome::Code(0)), &mut registry);
    let (signal, result) = end(late.advance(launched, &mut registry));
    assert_eq!(signal, Vec::<u32>::new());
    assert_eq!(result, Ok(()));
    assert!(registry.is_empty());
}

#[test]
fn identifier_is_a_member_exactly_from_its_spawn_to_its_exit() {
    let mut registry = ProcessRegistry::new();
    let run = begin(vec![call("one", &[]), call("two", &[]), call("three", &[])]);
    assert!(!registry.contains(50));
    let process = spawn(&run, 50, &mut registry);
    assert_eq!(registry.snapshot(), vec![50]);
    let launched = process.exited(Ok(ExitOutcome::Code(0)), &mut registry);
    assert!(registry.is_empty());
    let run = go_on(run.advance(launched, &mut registry));

    let process = spawn(&run, 50, &mut registry);
    assert_eq!(registry.snapshot(), vec![50]);
    let launched = process.exited(Ok(ExitOutcome::Code(0)), &mut registry);
    assert!(registry.is_empty());
    let run = go_on(run.advance(launched, &mut registry));

    let process = spawn(&run, 51, &mut registry);
    assert_eq!(registry.snapshot(), vec![51]);
    let launched = process.exited(Ok(ExitOutcome::Code(0)), &mut registry);
    assert!(registry.is_empty());
    let (_, result) = end(run.advance(launched, &mut registry));
    assert_eq!(result, Ok(()));
}
