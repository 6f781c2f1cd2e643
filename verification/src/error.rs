//! The error type shared by all evaluation components, and its HTTP mapping.

use vstd::prelude::*;

use std::time::Duration;

verus! {

/// Errors of configuration, provider calls, metrics, prompts, preprocessing
/// and evaluation.
#[derive(Debug)]
pub enum EvalError {
    /// Configuration could not be loaded.
    ConfigError(String),
    /// The requested provider is not configured.
    ProviderNotConfigured(String),
    /// An LLM call failed.
    LlmCallError(String),
    /// All retries failed.
    LlmRetryExhausted(String),
    /// Waiting for the rate limiter timed out.
    RateLimitTimeout,
    /// The rate limiter refused the request.
    RateLimited { retry_after: Option<Duration> },
    /// A single LLM call timed out.
    Timeout(Duration),
    /// The metric is not registered.
    MetricNotFound(String),
    /// Metric parameters are invalid.
    InvalidParams(String),
    /// A metric failed while computing.
    MetricExecutionError(String),
    /// The prompt template is not registered.
    PromptNotFound(String),
    /// A required prompt variable is missing.
    InvalidPromptVariables(String),
    /// Template rendering failed.
    PromptRenderError(String),
    /// A JSON path does not exist in the input.
    JsonPathNotFound(String),
    /// A regular expression matched nothing.
    RegexNoMatch,
    /// The evaluation timed out.
    EvalTimeout,
    /// A judge answer could not be parsed.
    JudgeParseFailed(String),
    /// Any other internal failure.
    Internal(String),
}

/// An owned copy of a string slice.
pub fn owned(s: &str) -> (res: String)
    ensures
        res@ == s@,
{
    s.to_string()
}

} // verus!
