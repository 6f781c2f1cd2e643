use eval_rs::error::EvalError;
use eval_rs::rate_limit::RateLimiter;
use eval_rs::retry::{RetryAction, RetryPolicy, is_retryable};

#[test]
fn test_rate_limit_within_capacity() {
    let mut limiter = RateLimiter::new(5, 0);
    for _ in 0..5 {
        assert!(limiter.try_acquire(0));
    }
    // 5 per minute refill one token every 12 seconds
    assert!(!limiter.try_acquire(10_000_000));
}

#[test]
fn test_rate_limit_refill() {
    let mut limiter = RateLimiter::new(600, 0);
    for _ in 0..600 {
        assert!(limiter.try_acquire(0));
    }
    assert!(!limiter.try_acquire(50_000_000));
    assert!(limiter.try_acquire(150_000_000));
}

#[test]
fn rate_limiter_interval() {
    assert_eq!(RateLimiter::new(600, 0).refill_interval_ms, 1);
    assert_eq!(RateLimiter::new(10, 0).refill_interval_ms, 100);
    assert_eq!(RateLimiter::new(0, 0).refill_interval_ms, 1);
    let mut empty = RateLimiter::new(0, 0);
    assert!(!empty.try_acquire(1_000_000_000_000));
}

#[test]
fn test_retry_exhausted() {
    let p = RetryPolicy::new(3, 10);
    assert!(matches!(p.after_failure(1, EvalError::LlmCallError("x".into())), RetryAction::RetryAfter(10)));
    assert!(matches!(p.after_failure(2, EvalError::LlmCallError("x".into())), RetryAction::RetryAfter(20)));
    assert!(matches!(p.after_failure(3, EvalError::LlmCallError("x".into())), RetryAction::Fail(EvalError::LlmCallError(_))));
}

#[test]
fn test_non_retryable_error() {
    let p = RetryPolicy::new(3, 10);
    assert!(matches!(p.after_failure(1, EvalError::InvalidParams("x".into())), RetryAction::Fail(EvalError::InvalidParams(_))));
    assert!(is_retryable(&EvalError::RateLimitTimeout));
    assert!(!is_retryable(&EvalError::EvalTimeout));
}

#[test]
fn test_retry_success_on_first_try() {
    let p = RetryPolicy::default();
    assert_eq!((p.max_attempts, p.backoff_ms), (3, 1000));
    assert!(p.attempts_any());
    assert!(!RetryPolicy::new(0, 1).attempts_any());
    assert!(matches!(RetryPolicy::exhausted(), EvalError::LlmRetryExhausted(_)));
}

#[test]
fn exhausted_error_carries_its_message() {
    match RetryPolicy::exhausted() {
        EvalError::LlmRetryExhausted(m) => assert_eq!(m, "重试耗尽"),
        other => panic!("unexpected error: {:?}", other),
    }
}
