use aer::batch::RunState;
use aer::batch::run_step;
use aer::batch::should_continue;
use aer::error::UpdateError;
use aer::error::exit_code;

#[test]
fn run_stops_at_first_failing_file() {
    // three package files; processing the second fails
    let files = ["one", "two", "three"];
    let mut state = RunState::Running;
    let mut processed: Vec<&str> = Vec::new();
    for file in files {
        if !should_continue(&state) {
            break;
        }
        processed.push(file);
        let outcome: Result<(), UpdateError> = if file == "two" {
            Err(UpdateError::Fetch("connection refused".to_string()))
        } else {
            Ok(())
        };
        state = run_step(state, outcome);
    }
    // the third file is never attempted
    assert_eq!(processed, vec!["one", "two"]);
    // the run reports exactly the second file's error
    match state {
        RunState::Failed(err) => {
            match &err {
                UpdateError::Fetch(msg) => assert_eq!(msg, "connection refused"),
                _ => panic!("expected the fetch error"),
            }
            assert_eq!(exit_code(&err), 1);
        },
        RunState::Running => panic!("the run should have failed"),
    }
}

#[test]
fn run_with_no_failures_processes_every_file() {
    let files = ["one", "two", "three"];
    let mut state = RunState::Running;
    let mut processed: Vec<&str> = Vec::new();
    for file in files {
        if !should_continue(&state) {
            break;
        }
        processed.push(file);
        let outcome: Result<(), UpdateError> = Ok(());
        state = run_step(state, outcome);
    }
    assert_eq!(processed, vec!["one", "two", "three"]);
    assert!(should_continue(&state));
}

#[test]
fn failed_state_keeps_its_first_error() {
    let state = RunState::Running;
    let state = run_step(state, Err(UpdateError::Definition("bad file".to_string())));
    let state = run_step(state, Err(UpdateError::Fetch("later failure".to_string())));
    match state {
        RunState::Failed(UpdateError::Definition(msg)) => assert_eq!(msg, "bad file"),
        _ => panic!("expected the first error to be kept"),
    }
}

#[test]
fn every_error_kind_maps_to_its_exit_code() {
    assert_eq!(exit_code(&UpdateError::MissingParseUrlStrategy), 5);
    assert_eq!(exit_code(&UpdateError::Fetch("x".to_string())), 1);
    assert_eq!(exit_code(&UpdateError::Pattern("x".to_string())), 1);
    assert_eq!(exit_code(&UpdateError::Definition("x".to_string())), 1);
}
