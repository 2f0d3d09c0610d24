use gitscribe::error::APIError;
use gitscribe::retry::{AttemptAction, GenerationAttempt, RetryPolicy};

fn run(outcomes: Vec<Result<String, APIError>>) -> (Result<String, APIError>, usize, Vec<u64>) {
    let mut cycle = GenerationAttempt::new(RetryPolicy::new(3, 100), "AI provider Readme Generation");
    let mut calls = 0;
    let mut waits = Vec::new();
    let mut outcomes = outcomes.into_iter();
    loop {
        calls += 1;
        let outcome = outcomes.next().unwrap();
        match cycle.record(outcome) {
            AttemptAction::RetryAfter(ms) => waits.push(ms),
            AttemptAction::Succeeded(t) => return (Ok(t), calls, waits),
            AttemptAction::Exhausted(e) => return (Err(e), calls, waits),
        }
    }
}

#[test]
fn third_attempt_succeeds() {
    let (r, calls, waits) = run(vec![
        Err(APIError::new_msg("Gemini", "timeout")),
        Err(APIError::new_msg("Gemini", "timeout")),
        Ok("text".to_string()),
    ]);
    assert_eq!(r.unwrap(), "text");
    assert_eq!(calls, 3);
    assert_eq!(waits, vec![100, 100]);
}

#[test]
fn all_attempts_fail() {
    let (r, calls, waits) = run(vec![
        Err(APIError::new_msg("Gemini", "first")),
        Err(APIError::new_msg("Gemini", "second")),
        Err(APIError::new_msg("Gemini", "last")),
    ]);
    let e = r.unwrap_err();
    assert_eq!(e.name, "AI provider Readme Generation");
    assert_eq!(e.message, "Gemini: last");
    assert_eq!(e.to_string(), "AI provider Readme Generation: Gemini: last");
    assert_eq!(calls, 3);
    assert_eq!(waits, vec![100, 100]);
}

#[test]
fn first_success_stops_the_cycle() {
    let (r, calls, waits) = run(vec![Ok("done".to_string())]);
    assert_eq!(r.unwrap(), "done");
    assert_eq!(calls, 1);
    assert!(waits.is_empty());
}

#[test]
fn default_policy_values() {
    let p = RetryPolicy::default_policy();
    assert_eq!(p.max_attempts, 3);
    assert_eq!(p.interval_ms, 100);
}

#[test]
fn error_constructors() {
    let e = APIError::new("fs::read_to_string", "not found");
    assert_eq!(e.name, "fs::read_to_string");
    assert_eq!(e.message, "not found");
    let w = APIError::wrap("stage", &e);
    assert_eq!(w.message, "fs::read_to_string: not found");
}
