use spawny::error::ChainError;
use spawny::orchestrator::{exit_code, overall_result};
use spawny::process::ExitOutcome;

fn failure(program: &str, code: i32) -> ChainError {
    ChainError::ProcessFailure { program: program.to_string(), outcome: ExitOutcome::Code(code) }
}

#[test]
fn run_without_chains_succeeds() {
    assert_eq!(overall_result(Vec::new()), Ok(()));
}

#[test]
fn run_succeeds_when_every_chain_succeeds() {
    assert_eq!(overall_result(vec![Ok(())]), Ok(()));
    assert_eq!(overall_result(vec![Ok(()), Ok(()), Ok(())]), Ok(()));
}

#[test]
fn run_fails_with_the_only_failure() {
    assert_eq!(overall_result(vec![Err(failure("a", 1))]), Err(failure("a", 1)));
    assert_eq!(overall_result(vec![Ok(()), Ok(()), Err(failure("c", 9))]), Err(failure("c", 9)));
    assert_eq!(overall_result(vec![Err(failure("a", 9)), Ok(()), Ok(())]), Err(failure("a", 9)));
}

#[test]
fn run_fails_with_the_first_failure_seen() {
    let spawn = ChainError::Spawn { program: "b".to_string(), cause: "not found".to_string() };
    assert_eq!(
        overall_result(vec![Ok(()), Err(spawn.clone()), Err(failure("c", 2)), Ok(())]),
        Err(spawn.clone())
    );
    assert_eq!(
        overall_result(vec![Err(failure("c", 2)), Err(spawn), Err(failure("d", 3))]),
        Err(failure("c", 2))
    );
}

#[test]
fn exit_code_is_zero_for_success_and_one_for_failure() {
    assert_eq!(exit_code(&Ok(())), 0);
    assert_eq!(exit_code(&Err(failure("a", 77))), 1);
    let wait = ChainError::Wait { program: "b".to_string(), cause: "gone".to_string() };
    assert_eq!(exit_code(&Err(wait)), 1);
}
