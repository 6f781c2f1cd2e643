//! Token buckets for requests per minute and for tokens per second, driven by
//! a monotonic clock in nanoseconds.

use vstd::prelude::*;

verus! {

/// Nanoseconds per minute.
pub const NANOS_PER_MINUTE: u128 = 60_000_000_000;

/// Requests granted by the refill for `elapsed` nanoseconds at `rpm` per
/// minute: `floor(elapsed * rpm / 60s)`, capped at `u64::MAX`.
pub open spec fn refill_tokens(elapsed: nat, rpm: nat) -> nat {
    let t = elapsed * rpm / (NANOS_PER_MINUTE as nat);
    if t > u64::MAX {
        u64::MAX as nat
    } else {
        t
    }
}

/// Request-rate limiter: a bucket of `max_tokens` requests refilled at
/// `max_tokens` per minute.
#[derive(Debug)]
pub struct RateLimiter {
    /// Wait between two attempts to take a token, in milliseconds.
    pub refill_interval_ms: u64,
    /// The bucket.
    pub inner: RateLimiterInner,
}

/// Bucket state of a [`RateLimiter`].
#[derive(Debug)]
pub struct RateLimiterInner {
    /// Capacity, equal to the requests allowed per minute.
    pub max_tokens: u64,
    /// Tokens available now.
    pub available: u64,
    /// Clock reading of the last refill.
    pub last_refill_ns: u64,
}

impl RateLimiterInner {
    /// The bucket never holds more than its capacity.
    pub open spec fn wf(self) -> bool {
        self.available <= self.max_tokens
    }

    /// Tokens added by a refill at `now_ns`.
    pub open spec fn due(self, now_ns: u64) -> nat {
        let elapsed = if now_ns >= self.last_refill_ns { now_ns - self.last_refill_ns } else { 0 };
        refill_tokens(elapsed as nat, self.max_tokens as nat)
    }

    /// Adds the tokens accrued since the last refill, up to the capacity; the
    /// refill time moves only when at least one token was added.
    pub fn refill(&mut self, now_ns: u64)
        requires
            old(self).wf(),
            old(self).available + old(self).due(now_ns) <= u64::MAX,
        ensures
            final(self).wf(),
            final(self).max_tokens == old(self).max_tokens,
            old(self).due(now_ns) == 0 ==> *final(self) == *old(self),
            old(self).due(now_ns) > 0 ==> final(self).last_refill_ns == now_ns && final(self).available == (if old(
                self,
            ).available + old(self).due(now_ns) <= old(self).max_tokens {
                old(self).available + old(self).due(now_ns)
            } else {
                old(self).max_tokens as int
            }),
    {
        let elapsed: u64 = if now_ns >= self.last_refill_ns { now_ns - self.last_refill_ns } else { 0 };
        proof {
            assert((elapsed as u128) * (self.max_tokens as u128) <= u128::MAX) by (nonlinear_arith)
                requires elapsed <= u64::MAX, self.max_tokens <= u64::MAX;
        }
        let t: u128 = (elapsed as u128) * (self.max_tokens as u128) / NANOS_PER_MINUTE;
        let new_tokens: u64 = if t > u64::MAX as u128 { u64::MAX } else { t as u64 };
        assert(new_tokens == self.due(now_ns));
        if new_tokens > 0 {
            let sum = self.available + new_tokens;
            self.available = if sum <= self.max_tokens { sum } else { self.max_tokens };
            self.last_refill_ns = now_ns;
        }
    }
}

impl RateLimiter {
    /// A full bucket of `rpm` tokens; `rpm = 0` makes every request wait out
    /// its timeout. The retry interval is `1000 / rpm` milliseconds (one
    /// millisecond at least, and when `rpm` is zero).
    pub fn new(rpm: u64, now_ns: u64) -> (res: Self)
        ensures
            res.inner.wf(),
            res.inner.max_tokens == rpm,
            res.inner.available == rpm,
            res.inner.last_refill_ns == now_ns,
            res.refill_interval_ms == (if rpm == 0 || 1000u64 / rpm == 0 { 1u64 } else { 1000u64 / rpm }),
    {
        let interval_ms: u64 = if rpm == 0 { 1 } else { 1000 / rpm };
        RateLimiter {
            refill_interval_ms: if interval_ms >= 1 { interval_ms } else { 1 },
            inner: RateLimiterInner { max_tokens: rpm, available: rpm, last_refill_ns: now_ns },
        }
    }

    /// Refills the bucket at `now_ns` and takes one token if there is one.
    pub fn try_acquire(&mut self, now_ns: u64) -> (res: bool)
        requires
            old(self).inner.wf(),
            old(self).inner.available + old(self).inner.due(now_ns) <= u64::MAX,
        ensures
            final(self).inner.wf(),
            final(self).refill_interval_ms == old(self).refill_interval_ms,
            final(self).inner.max_tokens == old(self).inner.max_tokens,
            ({
                let s = old(self).inner;
                let filled = if s.due(now_ns) == 0 {
                    s.available as int
                } else if s.available + s.due(now_ns) <= s.max_tokens {
                    s.available + s.due(now_ns)
                } else {
                    s.max_tokens as int
                };
                &&& res == (filled > 0)
                &&& final(self).inner.available == (if filled > 0 { filled - 1 } else { filled })
                &&& final(self).inner.last_refill_ns == (if s.due(now_ns) > 0 { now_ns } else { s.last_refill_ns })
            }),
    {
        self.inner.refill(now_ns);
        if self.inner.available > 0 {
            self.inner.available = self.inner.available - 1;
            true
        } else {
            false
        }
    }
}

/// Token-rate limiter. Amounts are kept in units of `1/60_000_000_000` token
/// so that both per-minute and per-second rates refill an exact whole number
/// of units per nanosecond.
#[derive(Debug)]
pub struct TokenLimiter {
    rate: u128,
    units: u128,
    last_refill_ns: u64,
}

/// Units in one token.
pub const UNITS_PER_TOKEN: u128 = 60_000_000_000;

/// Nanoseconds per second.
pub const NANOS_PER_SECOND: u128 = 1_000_000_000;

/// Refill rate in units per nanosecond for the configured limits; a rate of
/// `tpm` tokens per minute is `tpm` units per nanosecond and a rate of `tps`
/// tokens per second is `60 * tps`; with both, the smaller applies.
pub open spec fn token_rate(tpm: Option<u64>, tps: Option<u64>) -> Option<nat> {
    match (tpm, tps) {
        (Some(m), Some(s)) => Some(if (m as nat) <= 60 * (s as nat) { m as nat } else { 60 * (s as nat) }),
        (Some(m), None) => Some(m as nat),
        (None, Some(s)) => Some(60 * (s as nat)),
        (None, None) => None,
    }
}

impl TokenLimiter {
    /// Refill rate in units per nanosecond.
    pub closed spec fn rate(&self) -> nat {
        self.rate as nat
    }

    /// Units available now.
    pub closed spec fn units(&self) -> nat {
        self.units as nat
    }

    /// Clock reading of the last refill.
    pub closed spec fn last_refill(&self) -> u64 {
        self.last_refill_ns
    }

    /// Capacity: one second's worth of tokens.
    pub open spec fn capacity(&self) -> nat {
        self.rate() * (NANOS_PER_SECOND as nat)
    }

    /// The bucket holds at most its capacity and the rate is positive and bounded.
    pub open spec fn wf(&self) -> bool {
        &&& 0 < self.rate() <= 60 * (u64::MAX as nat)
        &&& self.units() <= self.capacity()
    }

    /// A full bucket for the given limits, or `None` when neither limit is set
    /// or the resulting rate is zero.
    pub fn new(tokens_per_minute: Option<u64>, tokens_per_second: Option<u64>, now_ns: u64) -> (res: Option<Self>)
        ensures
            match token_rate(tokens_per_minute, tokens_per_second) {
                None => res is None,
                Some(r) => if r == 0 {
                    res is None
                } else {
                    res matches Some(l) && l.wf() && l.rate() == r && l.units() == l.capacity() && l.last_refill() == now_ns
                },
            },
            res matches Some(l) ==> tokens_per_minute matches Some(m) ==> l.rate() <= m,
            res matches Some(l) ==> tokens_per_second matches Some(s) ==> l.rate() <= 60 * s,
            res matches Some(l) ==> (tokens_per_minute matches Some(m) && l.rate() == m)
                || (tokens_per_second matches Some(s) && l.rate() == 60 * s),
    {
        let rate: u128 = match (tokens_per_minute, tokens_per_second) {
            (Some(m), Some(s)) => {
                let per_second = 60 * (s as u128);
                if (m as u128) <= per_second { m as u128 } else { per_second }
            },
            (Some(m), None) => m as u128,
            (None, Some(s)) => 60 * (s as u128),
            (None, None) => { return None; },
        };
        if rate == 0 {
            return None;
        }
        Some(TokenLimiter { rate, units: rate * NANOS_PER_SECOND, last_refill_ns: now_ns })
    }

    /// Refills for the time elapsed since the last refill (the bucket is full
    /// after a second) and takes one token if there is one.
    pub fn try_acquire(&mut self, now_ns: u64) -> (res: bool)
        requires
            old(self).wf(),
        ensures
            final(self).wf(),
            final(self).rate() == old(self).rate(),
            final(self).last_refill() == now_ns,
            ({
                let elapsed = if now_ns >= old(self).last_refill() { now_ns - old(self).last_refill() } else { 0 };
                let sum = old(self).units() + elapsed * old(self).rate();
                let filled: int = if sum <= old(self).capacity() { sum } else { old(self).capacity() as int };
                &&& res == (filled >= UNITS_PER_TOKEN)
                &&& final(self).units() == (if res { filled - UNITS_PER_TOKEN } else { filled })
            }),
    {
        let elapsed: u64 = if now_ns >= self.last_refill_ns { now_ns - self.last_refill_ns } else { 0 };
        let cap = self.rate * NANOS_PER_SECOND;
        let filled: u128 = if (elapsed as u128) >= NANOS_PER_SECOND {
            proof {
                assert(elapsed * self.rate >= NANOS_PER_SECOND * self.rate) by (nonlinear_arith)
                    requires elapsed >= NANOS_PER_SECOND;
            }
            cap
        } else {
            proof {
                assert((elapsed as u128) * self.rate < NANOS_PER_SECOND * self.rate) by (nonlinear_arith)
                    requires (elapsed as u128) < NANOS_PER_SECOND, self.rate > 0;
            }
            let sum = self.units + (elapsed as u128) * self.rate;
            if sum <= cap { sum } else { cap }
        };
        self.last_refill_ns = now_ns;
        if filled >= UNITS_PER_TOKEN {
            self.units = filled - UNITS_PER_TOKEN;
            true
        } else {
            self.units = filled;
            false
        }
    }
}

/// A bucket of zero requests per minute never refills and never grants: it
/// is empty and nothing is due at any clock reading.
pub proof fn law_zero_rate_never_grants(bucket: RateLimiterInner, now_ns: u64)
    requires
        bucket.wf(),
        bucket.max_tokens == 0,
    ensures
        bucket.available == 0,
        bucket.due(now_ns) == 0,
{
    let elapsed: nat = if now_ns >= bucket.last_refill_ns { (now_ns - bucket.last_refill_ns) as nat } else { 0 };
    assert(elapsed * 0 == 0) by (nonlinear_arith);
}

/// With both limits set the refill rate exceeds neither: it is at most the
/// tokens per minute and at most sixty times the tokens per second, and it is
/// one of the two, so the smaller; with one limit set it is that limit.
pub proof fn law_token_rate_is_smaller_limit(tpm: Option<u64>, tps: Option<u64>)
    ensures
        token_rate(tpm, tps) is Some <==> (tpm is Some || tps is Some),
        token_rate(tpm, tps) matches Some(r) ==> tpm matches Some(m) ==> r <= m,
        token_rate(tpm, tps) matches Some(r) ==> tps matches Some(s) ==> r <= 60 * s,
        token_rate(tpm, tps) matches Some(r) ==> (tpm matches Some(m) && r == m) || (tps matches Some(s) && r == 60 * s),
{
}

} // verus!
