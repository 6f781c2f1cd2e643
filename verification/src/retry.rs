//! Retry with exponential backoff: which failures are retried, and how long to wait.

use vstd::prelude::*;
use vstd::arithmetic::power2::{pow2, lemma_pow2_unfold, lemma_pow2_strictly_increases};

use crate::error::{owned, EvalError};

verus! {

/// Retry settings: attempts in total and the first backoff.
#[derive(Debug, Clone)]
pub struct RetryPolicy {
    /// Maximum number of attempts, the first one included.
    pub max_attempts: u32,
    /// Backoff before the second attempt in milliseconds; it doubles after each failure.
    pub backoff_ms: u64,
}

/// Errors worth retrying: failed calls, rate limiting and timeouts.
pub open spec fn retryable(err: EvalError) -> bool {
    ||| err is LlmCallError
    ||| err is RateLimitTimeout
    ||| err is RateLimited
    ||| err is Timeout
}

/// Whether a failed call may succeed when retried.
pub fn is_retryable(err: &EvalError) -> (res: bool)
    ensures
        res == retryable(*err),
{
    match err {
        EvalError::LlmCallError(_) => true,
        EvalError::RateLimitTimeout => true,
        EvalError::RateLimited { .. } => true,
        EvalError::Timeout(_) => true,
        _ => false,
    }
}

/// What to do after a failed attempt.
#[derive(Debug)]
pub enum RetryAction {
    /// Wait this many milliseconds, then make the next attempt.
    RetryAfter(u64),
    /// Stop and return this error.
    Fail(EvalError),
}

/// The wait after failed attempt `attempt` (counting from one).
pub open spec fn backoff_delay(backoff_ms: u64, attempt: u32) -> int {
    backoff_ms * pow2((attempt - 1) as nat)
}

impl Default for RetryPolicy {
    fn default() -> (res: Self)
        ensures
            res.max_attempts == 3,
            res.backoff_ms == 1000,
    {
        RetryPolicy { max_attempts: 3, backoff_ms: 1000 }
    }
}

impl RetryPolicy {
    /// A policy with the given attempts and first backoff.
    pub fn new(max_attempts: u32, backoff_ms: u64) -> (res: Self)
        ensures
            res.max_attempts == max_attempts,
            res.backoff_ms == backoff_ms,
    {
        RetryPolicy { max_attempts, backoff_ms }
    }

    /// Whether any attempt is made at all; with zero attempts the run fails
    /// at once with [`RetryPolicy::exhausted`].
    pub fn attempts_any(&self) -> (res: bool)
        ensures
            res == (self.max_attempts >= 1),
    {
        self.max_attempts >= 1
    }

    /// The error of a run that made no attempt.
    pub fn exhausted() -> (res: EvalError)
        ensures
            res matches EvalError::LlmRetryExhausted(m) && m@ == "重试耗尽"@,
    {
        let m = owned("重试耗尽");
        proof {
            reveal_strlit("重试耗尽");
        }
        EvalError::LlmRetryExhausted(m)
    }

    /// Decides after attempt `attempt` failed with `err`: an error that is not
    /// retryable, or a failure of the last attempt, ends the run with that
    /// error; otherwise the next attempt follows after
    /// `backoff_ms * 2^(attempt - 1)` milliseconds.
    pub fn after_failure(&self, attempt: u32, err: EvalError) -> (res: RetryAction)
        requires
            1 <= attempt <= self.max_attempts,
            attempt < self.max_attempts && retryable(err) ==> attempt <= 64 && backoff_delay(
                self.backoff_ms,
                attempt,
            ) <= u64::MAX,
        ensures
            !retryable(err) ==> res == RetryAction::Fail(err),
            retryable(err) && attempt == self.max_attempts ==> res == RetryAction::Fail(err),
            retryable(err) && attempt < self.max_attempts ==> res == RetryAction::RetryAfter(
                backoff_delay(self.backoff_ms, attempt) as u64,
            ),
    {
        if !is_retryable(&err) {
            return RetryAction::Fail(err);
        }
        if attempt < self.max_attempts {
            let mut d: u64 = self.backoff_ms;
            let mut k: u32 = 0;
            proof {
                vstd::arithmetic::power2::lemma2_to64();
            }
            while k < attempt - 1
                invariant
                    k <= attempt - 1,
                    attempt <= 64,
                    d == self.backoff_ms * pow2(k as nat),
                    self.backoff_ms * pow2((attempt - 1) as nat) <= u64::MAX,
                decreases attempt - 1 - k,
            {
                proof {
                    lemma_pow2_unfold((k + 1) as nat);
                    if k + 1 < attempt - 1 {
                        lemma_pow2_strictly_increases((k + 1) as nat, (attempt - 1) as nat);
                    }
                    assert(self.backoff_ms * pow2((k + 1) as nat) <= self.backoff_ms * pow2((attempt - 1) as nat)) by (nonlinear_arith)
                        requires
                            pow2((k + 1) as nat) <= pow2((attempt - 1) as nat),
                    ;
                    assert(self.backoff_ms * pow2((k + 1) as nat) == 2 * (self.backoff_ms * pow2(k as nat))) by (nonlinear_arith)
                        requires
                            pow2((k + 1) as nat) == 2 * pow2(k as nat),
                    ;
                }
                d = d * 2;
                k = k + 1;
            }
            RetryAction::RetryAfter(d)
        } else {
            RetryAction::Fail(err)
        }
    }
}

/// Each wait doubles the one before: the wait after attempt `k + 1` is twice
/// the wait after attempt `k`.
pub proof fn law_backoff_doubles(backoff_ms: u64, attempt: u32)
    requires
        1 <= attempt < u32::MAX,
    ensures
        backoff_delay(backoff_ms, (attempt + 1) as u32) == 2 * backoff_delay(backoff_ms, attempt),
{
    lemma_pow2_unfold(attempt as nat);
    assert(backoff_ms * pow2(attempt as nat) == 2 * (backoff_ms * pow2((attempt - 1) as nat))) by (nonlinear_arith)
        requires pow2(attempt as nat) == 2 * pow2((attempt - 1) as nat);
}

} // verus!
