//! The provider table: which configured providers exist, which one serves a
//! call by default, and the limits and retry policy that calls go through.

use vstd::prelude::*;

use crate::error::{EvalError, owned};
use crate::rate_limit::{RateLimiter, TokenLimiter, token_rate};
use crate::retry::RetryPolicy;
use crate::service::RetryConfig;

verus! {

/// The client library a provider type is served by.
#[derive(Debug, Clone, Copy, PartialEq, Eq)]
pub enum ProviderKind {
    /// An OpenAI-compatible service.
    OpenAi,
    /// Anthropic.
    Anthropic,
}

/// The kind of a configured provider type; `None` for an unsupported type,
/// which is skipped.
pub fn provider_kind(provider_type: &str) -> (res: Option<ProviderKind>)
    ensures
        res == (if provider_type@ == "openai"@ {
            Some(ProviderKind::OpenAi)
        } else if provider_type@ == "anthropic"@ {
            Some(ProviderKind::Anthropic)
        } else {
            None
        }),
{
    let t = owned(provider_type);
    if t == owned("openai") {
        Some(ProviderKind::OpenAi)
    } else if t == owned("anthropic") {
        Some(ProviderKind::Anthropic)
    } else {
        None
    }
}

/// Seconds a call waits for the rate limiters.
pub const RATE_LIMIT_WAIT_SECS: u64 = 10;

/// Seconds a provider call may take by default.
pub const DEFAULT_PROVIDER_TIMEOUT_SECS: u64 = 60;

/// The providers that could be created, and how calls to them are limited.
#[derive(Debug)]
pub struct ProviderManager {
    /// Names of the created providers.
    pub names: Vec<String>,
    /// Name of the default provider.
    pub default_provider: Option<String>,
    /// Retry policy of calls without their own.
    pub retry_policy: RetryPolicy,
    /// Requests per minute.
    pub rate_limiter: RateLimiter,
    /// Tokens per minute or second, when limited.
    pub token_limiter: Option<TokenLimiter>,
    /// Calls in flight at most.
    pub max_concurrency: usize,
}

/// The last provider marked default, if any.
pub open spec fn last_default(created: Seq<(String, bool)>) -> Option<Seq<char>>
    decreases created.len(),
{
    if created.len() == 0 {
        None
    } else if created.last().1 {
        Some(created.last().0@)
    } else {
        last_default(created.drop_last())
    }
}

impl ProviderManager {
    /// Names of the providers.
    pub open spec fn provider_names(&self) -> Seq<Seq<char>> {
        self.names@.map_values(|s: String| s@)
    }

    /// The default provider's name.
    pub open spec fn default_name(&self) -> Option<Seq<char>> {
        match self.default_provider {
            Some(s) => Some(s@),
            None => None,
        }
    }

    /// A table of the providers that were created, in order, each with its
    /// `default` flag; the last one flagged default serves calls without a
    /// provider name. Limits start full at clock reading `now_ns`.
    pub fn new(created: Vec<(String, bool)>, max_concurrency: usize, requests_per_minute: u64,
        tokens_per_minute: Option<u64>, tokens_per_second: Option<u64>, now_ns: u64) -> (res: Self)
        ensures
            res.provider_names() == created@.map_values(|e: (String, bool)| e.0@),
            res.default_name() == last_default(created@),
            res.retry_policy.max_attempts == 3 && res.retry_policy.backoff_ms == 1000,
            res.rate_limiter.inner.wf(),
            res.rate_limiter.inner.max_tokens == requests_per_minute,
            res.rate_limiter.inner.available == requests_per_minute,
            res.rate_limiter.inner.last_refill_ns == now_ns,
            res.rate_limiter.refill_interval_ms == (if requests_per_minute == 0 || 1000u64 / requests_per_minute == 0 {
                1u64
            } else {
                1000u64 / requests_per_minute
            }),
            res.token_limiter is Some <==> (token_rate(tokens_per_minute, tokens_per_second) matches Some(r) && r > 0),
            res.token_limiter matches Some(l) ==> l.wf() && Some(l.rate()) == token_rate(tokens_per_minute, tokens_per_second)
                && l.units() == l.capacity() && l.last_refill() == now_ns,
            res.max_concurrency == max_concurrency,
    {
        let mut names: Vec<String> = Vec::new();
        let mut default_provider: Option<String> = None;
        let mut i: usize = 0;
        while i < created.len()
            invariant
                i <= created@.len(),
                names@.len() == i,
                names@.map_values(|s: String| s@) == created@.take(i as int).map_values(|e: (String, bool)| e.0@),
                match default_provider {
                    Some(s) => last_default(created@.take(i as int)) == Some(s@),
                    None => last_default(created@.take(i as int)) is None,
                },
            decreases created@.len() - i,
        {
            assert(created@.take(i + 1).drop_last() =~= created@.take(i as int));
            let name = created[i].0.clone();
            if created[i].1 {
                default_provider = Some(name.clone());
            }
            let ghost prev = names@;
            names.push(name);
            assert(names@.map_values(|s: String| s@) =~= created@.take(i + 1).map_values(|e: (String, bool)| e.0@)) by {
                assert(names@ == prev.push(names@[i as int]));
                assert forall|k: int| 0 <= k < i implies names@[k]@ == prev[k]@ by {}
                assert(prev.map_values(|s: String| s@).len() == i);
                assert forall|k: int| 0 <= k < i implies prev[k]@ == created@[k].0@ by {
                    assert(prev.map_values(|s: String| s@)[k] == created@.take(i as int).map_values(|e: (String, bool)| e.0@)[k]);
                }
            }
            i = i + 1;
        }
        assert(created@.take(i as int) =~= created@);
        let res = ProviderManager {
            names,
            default_provider,
            retry_policy: RetryPolicy::new(3, 1000),
            rate_limiter: RateLimiter::new(requests_per_minute, now_ns),
            token_limiter: TokenLimiter::new(tokens_per_minute, tokens_per_second, now_ns),
            max_concurrency,
        };
        assert(res.default_name() == last_default(created@));
        res
    }

    /// Whether a provider of this name exists.
    pub fn has_provider(&self, name: &str) -> (res: bool)
        ensures
            res == self.provider_names().contains(name@),
    {
        let n = owned(name);
        let mut i: usize = 0;
        while i < self.names.len()
            invariant
                i <= self.names@.len(),
                forall|k: int| 0 <= k < i ==> self.names@[k]@ != n@,
                n@ == name@,
            decreases self.names@.len() - i,
        {
            if self.names[i] == n {
                assert(self.provider_names()[i as int] == name@);
                return true;
            }
            i = i + 1;
        }
        assert(!self.provider_names().contains(name@)) by {
            if self.provider_names().contains(name@) {
                let k = choose|k: int| 0 <= k < self.provider_names().len() && self.provider_names()[k] == name@;
                assert(self.names@[k]@ == name@);
            }
        }
        false
    }

    /// The names of all providers.
    pub fn list_providers(&self) -> (res: Vec<String>)
        ensures
            res@.map_values(|s: String| s@) == self.provider_names(),
    {
        let mut out: Vec<String> = Vec::new();
        let mut i: usize = 0;
        while i < self.names.len()
            invariant
                i <= self.names@.len(),
                out@.len() == i,
                out@.map_values(|s: String| s@) == self.names@.take(i as int).map_values(|s: String| s@),
            decreases self.names@.len() - i,
        {
            let ghost prev = out@;
            out.push(self.names[i].clone());
            assert(out@.map_values(|s: String| s@) =~= self.names@.take(i + 1).map_values(|s: String| s@)) by {
                assert forall|k: int| 0 <= k < i implies prev[k]@ == self.names@[k]@ by {
                    assert(prev.map_values(|s: String| s@)[k] == self.names@.take(i as int).map_values(|s: String| s@)[k]);
                }
            }
            i = i + 1;
        }
        assert(self.names@.take(i as int) =~= self.names@);
        out
    }

    /// Whether any provider exists.
    pub fn has_any_provider(&self) -> (res: bool)
        ensures
            res == (self.provider_names().len() > 0),
    {
        self.names.len() > 0
    }

    /// Which provider, model and retry policy serve a call: the named provider
    /// or else the default one, the named model or else `"default"`, the
    /// request's retry settings or else the table's policy.
    pub fn resolve_call(&self, provider_name: Option<&str>, model: Option<&str>, retry: Option<RetryConfig>) -> (res: Result<CallPlan, EvalError>)
        ensures
            ({
                let chosen = match provider_name {
                    Some(p) => Some(p@),
                    None => self.default_name(),
                };
                match chosen {
                    None => res matches Err(EvalError::ProviderNotConfigured(_)),
                    Some(p) => if !self.provider_names().contains(p) {
                        res matches Err(EvalError::ProviderNotConfigured(m)) && m@ == p
                    } else {
                        res matches Ok(c) && c.provider@ == p
                            && c.model@ == (match model { Some(m) => m@, None => "default"@ })
                            && c.policy == (match retry {
                                Some(r) => RetryPolicy { max_attempts: r.max_attempts, backoff_ms: r.backoff_ms },
                                None => self.retry_policy,
                            })
                    },
                }
            }),
    {
        let name: String = match provider_name {
            Some(p) => owned(p),
            None => match &self.default_provider {
                Some(d) => d.clone(),
                None => {
                    return Err(EvalError::ProviderNotConfigured(owned("未配置默认 provider")));
                },
            },
        };
        if !self.has_provider(name.as_str()) {
            return Err(EvalError::ProviderNotConfigured(name));
        }
        let model: String = match model {
            Some(m) => owned(m),
            None => owned("default"),
        };
        let policy = match retry {
            Some(r) => RetryPolicy::new(r.max_attempts, r.backoff_ms),
            None => RetryPolicy::new(self.retry_policy.max_attempts, self.retry_policy.backoff_ms),
        };
        Ok(CallPlan { provider: name, model, policy })
    }
}

/// The provider, model and retry policy of one call.
#[derive(Debug)]
pub struct CallPlan {
    pub provider: String,
    pub model: String,
    pub policy: RetryPolicy,
}

} // verus!
