use spawny::chain::{ChainRun, Stage};
use spawny::error::ChainError;
use spawny::process::{ExitOutcome, ProcessSpec};
use spawny::registry::ProcessRegistry;

fn step(name: &str, args: &[&str]) -> ProcessSpec {
    ProcessSpec {
        program: name.to_string(),
        args: args.iter().map(|arg| arg.to_string()).collect(),
    }
}

fn due(stage: Stage) -> ChainRun {
    match stage {
        Stage::Launch(run) => run,
        Stage::Finished(finished) => panic!("the chain has ended: {:?}", finished.result),
    }
}

fn ended(stage: Stage) -> (Vec<u32>, Result<(), ChainError>) {
    match stage {
        Stage::Launch(run) => panic!("the chain goes on with {:?}", run.current()),
        Stage::Finished(finished) => {
            let mut signal = finished.signal;
            signal.sort();
            (signal, finished.result)
        }
    }
}

#[test]
fn chain_starts_with_its_first_program() {
    let run = due(ChainRun::start(vec![step("echo", &["a"]), step("echo", &["b"])]));
    assert_eq!(run.current(), &step("echo", &["a"]));
}

#[test]
fn chain_without_programs_has_ended_at_once_without_a_sweep() {
    let (signal, result) = ended(ChainRun::start(Vec::new()));
    assert_eq!(signal, Vec::<u32>::new());
    assert_eq!(result, Ok(()));
}

#[test]
fn success_with_more_to_follow_goes_on_without_a_sweep() {
    let mut registry = ProcessRegistry::new();
    registry.insert(50);
    let run = due(ChainRun::start(vec![step("server", &[]), step("client", &["-p"])]));
    let run = due(run.advance(Ok(ExitOutcome::Code(0)), &mut registry));
    assert_eq!(run.current(), &step("client", &["-p"]));
    assert_eq!(registry.snapshot(), vec![50]);
}

#[test]
fn success_of_the_last_program_completes_the_chain_and_sweeps() {
    let mut registry = ProcessRegistry::new();
    registry.insert(50);
    registry.insert(51);
    let run = due(ChainRun::start(vec![step("server", &[]), step("client", &[])]));
    let run = due(run.advance(Ok(ExitOutcome::Code(0)), &mut registry));
    let (signal, result) = ended(run.advance(Ok(ExitOutcome::Code(0)), &mut registry));
    assert_eq!(result, Ok(()));
    assert_eq!(signal, vec![50, 51]);
    assert!(registry.is_empty());
}

#[test]
fn failing_status_fails_the_chain_and_sweeps() {
    let mut registry = ProcessRegistry::new();
    registry.insert(50);
    let run = due(ChainRun::start(vec![step("make", &["all"]), step("client", &[])]));
    let (signal, result) = ended(run.advance(Ok(ExitOutcome::Code(2)), &mut registry));
    assert_eq!(
        result,
        Err(ChainError::ProcessFailure { program: "make".to_string(), outcome: ExitOutcome::Code(2) })
    );
    assert_eq!(signal, vec![50]);
    assert!(registry.is_empty());
}

#[test]
fn death_by_signal_fails_the_chain() {
    let mut registry = ProcessRegistry::new();
    let run = due(ChainRun::start(vec![step("sleep", &["5"])]));
    let (signal, result) = ended(run.advance(Ok(ExitOutcome::Signal(15)), &mut registry));
    assert_eq!(
        result,
        Err(ChainError::ProcessFailure {
            program: "sleep".to_string(),
            outcome: ExitOutcome::Signal(15),
        })
    );
    assert_eq!(signal, Vec::<u32>::new());
}

#[test]
fn unknown_outcome_fails_the_chain() {
    let mut registry = ProcessRegistry::new();
    let run = due(ChainRun::start(vec![step("odd", &[])]));
    let (_, result) = ended(run.advance(Ok(ExitOutcome::Unknown), &mut registry));
    assert_eq!(
        result,
        Err(ChainError::ProcessFailure { program: "odd".to_string(), outcome: ExitOutcome::Unknown })
    );
}

#[test]
fn failed_launch_fails_the_chain_with_the_same_error_and_sweeps() {
    let mut registry = ProcessRegistry::new();
    registry.insert(50);
    let spawn = ChainError::Spawn { program: "nope".to_string(), cause: "not found".to_string() };
    let run = due(ChainRun::start(vec![step("nope", &[]), step("after", &[])]));
    let (signal, result) = ended(run.advance(Err(spawn.clone()), &mut registry));
    assert_eq!(result, Err(spawn));
    assert_eq!(signal, vec![50]);
    assert!(registry.is_empty());

    registry.insert(60);
    let wait = ChainError::Wait { program: "nope".to_string(), cause: "gone".to_string() };
    let run = due(ChainRun::start(vec![step("nope", &[])]));
    let (signal, result) = ended(run.advance(Err(wait.clone()), &mut registry));
    assert_eq!(result, Err(wait));
    assert_eq!(signal, vec![60]);
    assert!(registry.is_empty());
}

#[test]
fn failure_names_the_program_of_the_failing_step() {
    let mut registry = ProcessRegistry::new();
    let run = due(ChainRun::start(vec![step("first", &[]), step("second", &[]), step("third", &[])]));
    let run = due(run.advance(Ok(ExitOutcome::Code(0)), &mut registry));
    let (_, result) = ended(run.advance(Ok(ExitOutcome::Code(3)), &mut registry));
    assert_eq!(
        result,
        Err(ChainError::ProcessFailure { program: "second".to_string(), outcome: ExitOutcome::Code(3) })
    );
}

#[test]
fn one_step_chain_sweeps_as_soon_as_its_program_succeeds() {
    let mut registry = ProcessRegistry::new();
    registry.insert(70);
    registry.insert(71);
    let run = due(ChainRun::start(vec![step("true", &[])]));
    let (signal, result) = ended(run.advance(Ok(ExitOutcome::Code(0)), &mut registry));
    assert_eq!(result, Ok(()));
    assert_eq!(signal, vec![70, 71]);
    assert!(registry.is_empty());
}

#[test]
fn exit_outcome_succeeds_only_with_status_zero() {
    assert!(ExitOutcome::Code(0).success());
    assert!(!ExitOutcome::Code(1).success());
    assert!(!ExitOutcome::Code(-1).success());
    assert!(!ExitOutcome::Code(255).success());
    assert!(!ExitOutcome::Signal(0).success());
    assert!(!ExitOutcome::Signal(15).success());
    assert!(!ExitOutcome::Unknown.success());
}

#[test]
fn launch_is_that_of_the_program_that_is_due() {
    let mut registry = ProcessRegistry::new();
    let run = due(ChainRun::start(vec![step("server", &["--listen", "80"]), step("client", &[])]));
    let launch = run.launch();
    assert_eq!(launch.program(), "server");
    assert_eq!(launch.args(), &vec!["--listen".to_string(), "80".to_string()]);
    assert_eq!(run.current(), &step("server", &["--listen", "80"]));
    let run = due(run.advance(Ok(ExitOutcome::Code(0)), &mut registry));
    let launch = run.launch();
    assert_eq!(launch.program(), "client");
    assert_eq!(launch.args(), &Vec::<String>::new());
}

#[test]
fn copy_of_a_program_is_equal_to_it() {
    let program = step("cp", &["-r", "a", "b"]);
    assert_eq!(program.duplicate(), program);
    assert_eq!(step("true", &[]).duplicate(), step("true", &[]));
}
