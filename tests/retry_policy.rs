use tag_sync::retry::{
    is_success, is_transient_failure, AttemptOutcome, Decision, FetchError, LastFailure,
    RetryPolicy, RetryState, INITIAL_BACKOFF_MS, MAX_RETRIES, RPS_DELAY_MS,
};

fn run(outcomes: &[AttemptOutcome]) -> (usize, Vec<u64>, Decision) {
    let policy = RetryPolicy::standard();
    let mut state = RetryState::start(&policy);
    let mut waits = Vec::new();
    for (i, o) in outcomes.iter().enumerate() {
        match state.record(&policy, o.clone()) {
            Decision::Retry { wait_ms } => waits.push(wait_ms),
            d => return (i + 1, waits, d),
        }
    }
    panic!("the fetch did not finish");
}

#[test]
fn always_unavailable_is_attempted_max_retries_plus_one_times() {
    let outcomes = vec![AttemptOutcome::Status(503); 10];
    let (attempts, waits, d) = run(&outcomes);
    assert_eq!(attempts, MAX_RETRIES as usize + 1);
    assert_eq!(waits, vec![300, 600, 1200]);
    assert!(waits.windows(2).all(|w| w[1] == 2 * w[0]));
    assert_eq!(
        d,
        Decision::Fail(FetchError::Exhausted { attempts: 4, last: LastFailure::Status(503) })
    );
}

#[test]
fn transport_errors_are_retried_and_reported() {
    let outcomes = vec![AttemptOutcome::Transport("connection refused".to_string()); 4];
    let (attempts, waits, d) = run(&outcomes);
    assert_eq!(attempts, 4);
    assert_eq!(waits.len(), 3);
    assert_eq!(
        d,
        Decision::Fail(FetchError::Exhausted {
            attempts: 4,
            last: LastFailure::Transport("connection refused".to_string())
        })
    );
}

#[test]
fn rate_limit_then_success() {
    let outcomes = vec![AttemptOutcome::Status(429), AttemptOutcome::Status(200)];
    let (attempts, waits, d) = run(&outcomes);
    assert_eq!(attempts, 2);
    assert_eq!(waits, vec![INITIAL_BACKOFF_MS]);
    assert_eq!(d, Decision::Succeed(200));
}

#[test]
fn client_error_is_terminal_at_once() {
    let (attempts, waits, d) = run(&[AttemptOutcome::Status(404)]);
    assert_eq!(attempts, 1);
    assert!(waits.is_empty());
    assert_eq!(d, Decision::Fail(FetchError::Rejected(404)));
}

#[test]
fn unclonable_request_fails_fast() {
    let (attempts, _, d) = run(&[AttemptOutcome::Unclonable]);
    assert_eq!(attempts, 1);
    assert_eq!(d, Decision::Fail(FetchError::Unclonable));
}

#[test]
fn status_classes() {
    assert!(is_success(200) && is_success(299));
    assert!(!is_success(300) && !is_success(199));
    assert!(is_transient_failure(429) && is_transient_failure(500) && is_transient_failure(599));
    assert!(!is_transient_failure(404) && !is_transient_failure(600) && !is_transient_failure(428));
}

#[test]
fn standard_policy_values() {
    let p = RetryPolicy::standard();
    assert_eq!(p.pace_ms, RPS_DELAY_MS);
    assert_eq!(p.pace_ms, 250);
    assert_eq!(p.attempt_cap(), 4);
}

#[test]
fn backoff_saturates_instead_of_overflowing() {
    let policy = RetryPolicy { pace_ms: 0, max_retries: 3, initial_backoff_ms: u64::MAX / 2 + 1 };
    let mut state = RetryState::start(&policy);
    assert_eq!(
        state.record(&policy, AttemptOutcome::Status(500)),
        Decision::Retry { wait_ms: u64::MAX / 2 + 1 }
    );
    assert_eq!(state.record(&policy, AttemptOutcome::Status(500)), Decision::Retry { wait_ms: u64::MAX });
}
