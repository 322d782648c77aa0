use mv_consistency::retry::{RetryDecision, RetryPolicy, DEFAULT_BACKOFF_MS, DEFAULT_MAX_ATTEMPTS};

#[test]
fn standard_policy_is_eight_attempts_64_ms_apart() {
    let policy = RetryPolicy::standard();
    assert_eq!(policy.max_attempts, 8);
    assert_eq!(policy.backoff_ms, 64);
    assert_eq!(DEFAULT_MAX_ATTEMPTS, 8);
    assert_eq!(DEFAULT_BACKOFF_MS, 64);
}

#[test]
fn retries_before_the_last_attempt() {
    let policy = RetryPolicy::standard();
    for attempt in 1..8u32 {
        assert_eq!(policy.after_failure(attempt), RetryDecision::Retry { delay_ms: 64 });
    }
}

#[test]
fn gives_up_at_the_last_attempt() {
    let policy = RetryPolicy::standard();
    assert_eq!(policy.after_failure(8), RetryDecision::GiveUp);
    assert_eq!(policy.after_failure(9), RetryDecision::GiveUp);
    assert_eq!(policy.after_failure(u32::MAX), RetryDecision::GiveUp);
}

#[test]
fn single_attempt_policy_never_retries() {
    let policy = RetryPolicy { max_attempts: 1, backoff_ms: 10 };
    assert_eq!(policy.after_failure(1), RetryDecision::GiveUp);
}

#[test]
fn zero_attempt_policy_gives_up_on_the_first_failure() {
    let policy = RetryPolicy { max_attempts: 0, backoff_ms: 10 };
    assert_eq!(policy.after_failure(1), RetryDecision::GiveUp);
}

#[test]
fn delay_is_the_backoff_of_the_policy() {
    let policy = RetryPolicy { max_attempts: 3, backoff_ms: 250 };
    assert_eq!(policy.after_failure(1), RetryDecision::Retry { delay_ms: 250 });
    assert_eq!(policy.after_failure(2), RetryDecision::Retry { delay_ms: 250 });
    assert_eq!(policy.after_failure(3), RetryDecision::GiveUp);
}
