//! The service's request and response model: HTTP error mapping, the health
//! report, evaluation requests and the choice of log format.

use vstd::prelude::*;
use vstd::string::*;

use crate::error::{EvalError, owned};
use crate::json::{Json, JsonV};
use crate::metrics::{MetricDescriptor, MetricRegistry};
use crate::preprocess::{PreprocessConfig, converted, path_segments, preprocess, walk};

verus! {

/// HTTP status of an error.
pub open spec fn status_of(e: EvalError) -> u16 {
    match e {
        EvalError::ConfigError(_) => 500,
        EvalError::ProviderNotConfigured(_) => 400,
        EvalError::LlmCallError(_) => 502,
        EvalError::LlmRetryExhausted(_) => 502,
        EvalError::RateLimitTimeout => 429,
        EvalError::RateLimited { .. } => 429,
        EvalError::Timeout(_) => 504,
        EvalError::MetricNotFound(_) => 404,
        EvalError::InvalidParams(_) => 400,
        EvalError::MetricExecutionError(_) => 500,
        EvalError::PromptNotFound(_) => 404,
        EvalError::InvalidPromptVariables(_) => 400,
        EvalError::PromptRenderError(_) => 500,
        EvalError::JsonPathNotFound(_) => 400,
        EvalError::RegexNoMatch => 400,
        EvalError::EvalTimeout => 504,
        EvalError::JudgeParseFailed(_) => 422,
        EvalError::Internal(_) => 500,
    }
}

/// Machine-readable code of an error.
pub open spec fn code_of(e: EvalError) -> Seq<char> {
    match e {
        EvalError::ConfigError(_) => "config_error"@,
        EvalError::ProviderNotConfigured(_) => "provider_not_configured"@,
        EvalError::LlmCallError(_) => "llm_call_error"@,
        EvalError::LlmRetryExhausted(_) => "llm_retry_exhausted"@,
        EvalError::RateLimitTimeout => "rate_limit_timeout"@,
        EvalError::RateLimited { .. } => "rate_limited"@,
        EvalError::Timeout(_) => "timeout"@,
        EvalError::MetricNotFound(_) => "metric_not_found"@,
        EvalError::InvalidParams(_) => "invalid_params"@,
        EvalError::MetricExecutionError(_) => "metric_execution_error"@,
        EvalError::PromptNotFound(_) => "prompt_not_found"@,
        EvalError::InvalidPromptVariables(_) => "invalid_prompt_variables"@,
        EvalError::PromptRenderError(_) => "prompt_render_error"@,
        EvalError::JsonPathNotFound(_) => "path_not_found"@,
        EvalError::RegexNoMatch => "regex_no_match"@,
        EvalError::EvalTimeout => "eval_timeout"@,
        EvalError::JudgeParseFailed(_) => "judge_parse_failed"@,
        EvalError::Internal(_) => "internal_error"@,
    }
}

/// The text an error carries, for the errors that carry one; empty for the
/// errors without a payload.
pub open spec fn payload_of(e: EvalError) -> Option<Seq<char>> {
    match e {
        EvalError::ConfigError(m) => Some(m@),
        EvalError::ProviderNotConfigured(m) => Some(m@),
        EvalError::LlmCallError(m) => Some(m@),
        EvalError::LlmRetryExhausted(m) => Some(m@),
        EvalError::RateLimitTimeout => Some(Seq::empty()),
        EvalError::MetricNotFound(m) => Some(m@),
        EvalError::InvalidParams(m) => Some(m@),
        EvalError::MetricExecutionError(m) => Some(m@),
        EvalError::PromptNotFound(m) => Some(m@),
        EvalError::InvalidPromptVariables(m) => Some(m@),
        EvalError::PromptRenderError(m) => Some(m@),
        EvalError::JsonPathNotFound(m) => Some(m@),
        EvalError::RegexNoMatch => Some(Seq::empty()),
        EvalError::EvalTimeout => Some(Seq::empty()),
        EvalError::JudgeParseFailed(m) => Some(m@),
        EvalError::Internal(m) => Some(m@),
        _ => None,
    }
}

/// Body of an error response.
#[derive(Debug)]
pub struct ErrorResponse {
    /// Error code.
    pub error: String,
    /// Human-readable detail.
    pub details: String,
}

/// The `Debug` text of a duration, as `std` prints it (`1.5s`, `100ms`).
#[verifier::external_body]
fn duration_text(d: std::time::Duration) -> String {
    format!("{d:?}")
}

/// The HTTP status of an error.
pub fn error_status(e: &EvalError) -> (res: u16)
    ensures
        res == status_of(*e),
{
    match e {
        EvalError::ConfigError(_) => 500,
        EvalError::ProviderNotConfigured(_) => 400,
        EvalError::LlmCallError(_) => 502,
        EvalError::LlmRetryExhausted(_) => 502,
        EvalError::RateLimitTimeout => 429,
        EvalError::RateLimited { .. } => 429,
        EvalError::Timeout(_) => 504,
        EvalError::MetricNotFound(_) => 404,
        EvalError::InvalidParams(_) => 400,
        EvalError::MetricExecutionError(_) => 500,
        EvalError::PromptNotFound(_) => 404,
        EvalError::InvalidPromptVariables(_) => 400,
        EvalError::PromptRenderError(_) => 500,
        EvalError::JsonPathNotFound(_) => 400,
        EvalError::RegexNoMatch => 400,
        EvalError::EvalTimeout => 504,
        EvalError::JudgeParseFailed(_) => 422,
        EvalError::Internal(_) => 500,
    }
}

/// The status and body with which an error is answered.
pub fn error_response(e: &EvalError) -> (res: (u16, ErrorResponse))
    ensures
        res.0 == status_of(*e),
        res.1.error@ == code_of(*e),
        payload_of(*e) matches Some(p) ==> res.1.details@ == p,
        *e matches EvalError::RateLimited { retry_after: None } ==> res.1.details@ == "建议 None 后重试"@,
        *e matches EvalError::RateLimited { retry_after: Some(_) } ==> exists|t: Seq<char>|
            res.1.details@ == "建议 Some("@ + t + ") 后重试"@,
{
    let code: &str = match e {
        EvalError::ConfigError(_) => "config_error",
        EvalError::ProviderNotConfigured(_) => "provider_not_configured",
        EvalError::LlmCallError(_) => "llm_call_error",
        EvalError::LlmRetryExhausted(_) => "llm_retry_exhausted",
        EvalError::RateLimitTimeout => "rate_limit_timeout",
        EvalError::RateLimited { .. } => "rate_limited",
        EvalError::Timeout(_) => "timeout",
        EvalError::MetricNotFound(_) => "metric_not_found",
        EvalError::InvalidParams(_) => "invalid_params",
        EvalError::MetricExecutionError(_) => "metric_execution_error",
        EvalError::PromptNotFound(_) => "prompt_not_found",
        EvalError::InvalidPromptVariables(_) => "invalid_prompt_variables",
        EvalError::PromptRenderError(_) => "prompt_render_error",
        EvalError::JsonPathNotFound(_) => "path_not_found",
        EvalError::RegexNoMatch => "regex_no_match",
        EvalError::EvalTimeout => "eval_timeout",
        EvalError::JudgeParseFailed(_) => "judge_parse_failed",
        EvalError::Internal(_) => "internal_error",
    };
    let details: String = match e {
        EvalError::ConfigError(m) => m.clone(),
        EvalError::ProviderNotConfigured(m) => m.clone(),
        EvalError::LlmCallError(m) => m.clone(),
        EvalError::LlmRetryExhausted(m) => m.clone(),
        EvalError::RateLimitTimeout => String::new(),
        EvalError::RateLimited { retry_after } => {
            proof {
                reveal_strlit("建议 ");
                reveal_strlit("Some(");
                reveal_strlit(")");
                reveal_strlit("None");
                reveal_strlit(" 后重试");
                reveal_strlit("建议 None 后重试");
                reveal_strlit("建议 Some(");
                reveal_strlit(") 后重试");
            }
            let mut t = owned("建议 ");
            match retry_after {
                Some(d) => {
                    t.append("Some(");
                    let dt = duration_text(*d);
                    t.append(dt.as_str());
                    t.append(")");
                    t.append(" 后重试");
                    assert(t@ =~= "建议 Some("@ + dt@ + ") 后重试"@);
                },
                None => {
                    t.append("None");
                    t.append(" 后重试");
                    assert(t@ =~= "建议 None 后重试"@);
                },
            }
            t
        },
        EvalError::Timeout(d) => duration_text(*d),
        EvalError::MetricNotFound(m) => m.clone(),
        EvalError::InvalidParams(m) => m.clone(),
        EvalError::MetricExecutionError(m) => m.clone(),
        EvalError::PromptNotFound(m) => m.clone(),
        EvalError::InvalidPromptVariables(m) => m.clone(),
        EvalError::PromptRenderError(m) => m.clone(),
        EvalError::JsonPathNotFound(m) => m.clone(),
        EvalError::RegexNoMatch => String::new(),
        EvalError::EvalTimeout => String::new(),
        EvalError::JudgeParseFailed(m) => m.clone(),
        EvalError::Internal(m) => m.clone(),
    };
    let status = error_status(e);
    (status, ErrorResponse { error: owned(code), details })
}

/// State of one dependency in the health report.
#[derive(Debug)]
pub struct DependencyHealth {
    /// `ok`, `error` or `disabled`.
    pub status: String,
    /// Why it is not healthy.
    pub error: Option<String>,
}

/// The health report: overall status and each dependency.
#[derive(Debug)]
pub struct HealthResponse {
    /// `ok`, or `degraded` when a dependency is in error.
    pub status: String,
    /// Dependencies by name.
    pub dependencies: Vec<(String, DependencyHealth)>,
}

impl Default for HealthResponse {
    fn default() -> (res: Self)
        ensures
            res.status@ == "ok"@,
            res.dependencies@.len() == 0,
    {
        HealthResponse { status: owned("ok"), dependencies: Vec::new() }
    }
}

/// What a storage health probe found.
#[derive(Debug)]
pub enum StorageProbe {
    /// Storage is not configured.
    Disabled,
    /// The probe query succeeded.
    Healthy,
    /// The probe failed with this message.
    Failed(String),
}

/// The service is degraded: the storage probe failed or no provider is set up.
pub open spec fn health_degraded(storage: StorageProbe, has_provider: bool) -> bool {
    storage is Failed || !has_provider
}

/// The health report for a storage probe and the presence of a provider.
/// A healthy service reports status `ok` and no dependencies; a degraded one
/// reports status `degraded` with its `sqlite` and `providers` entries.
pub fn health_report(storage: StorageProbe, has_provider: bool) -> (res: HealthResponse)
    ensures
        res.status@ == (if health_degraded(storage, has_provider) { "degraded"@ } else { "ok"@ }),
        !health_degraded(storage, has_provider) ==> res.dependencies@.len() == 0,
        health_degraded(storage, has_provider) ==> {
            &&& res.dependencies@.len() == 2
            &&& res.dependencies@[0].0@ == "sqlite"@
            &&& res.dependencies@[1].0@ == "providers"@
            &&& match storage {
                StorageProbe::Disabled => res.dependencies@[0].1.status@ == "disabled"@ && res.dependencies@[0].1.error is None,
                StorageProbe::Healthy => res.dependencies@[0].1.status@ == "ok"@ && res.dependencies@[0].1.error is None,
                StorageProbe::Failed(m) => res.dependencies@[0].1.status@ == "error"@ && crate::reply::opt_str_v(res.dependencies@[0].1.error) == Some(m@),
            }
            &&& has_provider ==> res.dependencies@[1].1.status@ == "ok"@ && res.dependencies@[1].1.error is None
            &&& !has_provider ==> res.dependencies@[1].1.status@ == "error"@
                && crate::reply::opt_str_v(res.dependencies@[1].1.error) == Some("no LLM providers configured"@)
        },
{
    let ghost probe = storage;
    let mut degraded = false;
    let sqlite = match storage {
        StorageProbe::Healthy => DependencyHealth { status: owned("ok"), error: None },
        StorageProbe::Failed(m) => {
            degraded = true;
            DependencyHealth { status: owned("error"), error: Some(m) }
        },
        StorageProbe::Disabled => DependencyHealth { status: owned("disabled"), error: None },
    };
    let providers = if has_provider {
        DependencyHealth { status: owned("ok"), error: None }
    } else {
        degraded = true;
        DependencyHealth { status: owned("error"), error: Some(owned("no LLM providers configured")) }
    };
    assert(degraded == health_degraded(probe, has_provider));
    let mut dependencies: Vec<(String, DependencyHealth)> = Vec::new();
    if degraded {
        dependencies.push((owned("sqlite"), sqlite));
        dependencies.push((owned("providers"), providers));
    }
    let status = if degraded { owned("degraded") } else { owned("ok") };
    HealthResponse { status, dependencies }
}

/// Retry settings of a request.
#[derive(Debug, Clone, Copy)]
pub struct RetryConfig {
    /// Attempts in total.
    pub max_attempts: u32,
    /// First backoff in milliseconds.
    pub backoff_ms: u64,
}

/// Retry settings as a request body gives them.
#[derive(Debug, Clone, Copy)]
pub struct RetryConfigBody {
    /// Attempts in total (default 3).
    pub max_attempts: u32,
    /// First backoff in milliseconds (default 1000).
    pub backoff_ms: u64,
}

/// Default attempts of a request's retry settings.
pub fn default_max_attempts() -> (res: u32)
    ensures
        res == 3,
{
    3
}

/// Default first backoff of a request's retry settings.
pub fn default_backoff_ms() -> (res: u64)
    ensures
        res == 1000,
{
    1000
}

/// An evaluation request as the engine runs it.
#[derive(Debug)]
pub struct EvalRequest {
    /// Metric name.
    pub metric: String,
    /// Metric parameters (an object).
    pub params: Json,
    /// Model output to evaluate.
    pub input: Json,
    /// Optional preprocessing of the input.
    pub extract: Option<PreprocessConfig>,
    /// Optional retry settings.
    pub retry: Option<RetryConfig>,
    /// Optional provider name.
    pub provider: Option<String>,
    /// Request identifier.
    pub request_id: String,
}

/// An evaluation request as the HTTP body gives it.
#[derive(Debug)]
pub struct EvalRequestBody {
    /// Metric name.
    pub metric: String,
    /// Metric parameters (an object).
    pub params: Json,
    /// Model output to evaluate.
    pub input: Json,
    /// Optional preprocessing of the input.
    pub extract: Option<PreprocessConfig>,
    /// Optional retry settings.
    pub retry: Option<RetryConfigBody>,
    /// Optional provider name.
    pub provider: Option<String>,
    /// Optional request identifier.
    pub request_id: Option<String>,
}

/// A hyphenated UUID text: 36 characters, lower-case hexadecimal digits in
/// groups of 8, 4, 4, 4 and 12 separated by hyphens.
pub open spec fn uuid_text(s: Seq<char>) -> bool {
    &&& s.len() == 36
    &&& forall|i: int| 0 <= i < 36 ==> if i == 8 || i == 13 || i == 18 || i == 23 {
        s[i] == '-'
    } else {
        ('0' <= #[trigger] s[i] && s[i] <= '9') || ('a' <= s[i] && s[i] <= 'f')
    }
}

/// A fresh random request identifier: `uuid::Uuid::new_v4` printed by its
/// `Display`, which writes the hyphenated lower-case form. Which identifier
/// comes out is left open: it is random.
#[verifier::external_body]
pub fn generate_request_id() -> (res: String)
    ensures
        uuid_text(res@),
{
    uuid::Uuid::new_v4().to_string()
}

impl EvalRequestBody {
    /// The engine request: the same fields, with a fresh identifier when the body has none.
    pub fn to_engine_request(self) -> (res: EvalRequest)
        ensures
            res.metric == self.metric,
            res.params == self.params,
            res.input == self.input,
            res.extract == self.extract,
            res.provider == self.provider,
            match self.retry {
                Some(r) => res.retry == Some(RetryConfig { max_attempts: r.max_attempts, backoff_ms: r.backoff_ms }),
                None => res.retry is None,
            },
            self.request_id matches Some(id) ==> res.request_id == id,
            self.request_id is None ==> uuid_text(res.request_id@),
    {
        let retry = match self.retry {
            Some(r) => Some(RetryConfig { max_attempts: r.max_attempts, backoff_ms: r.backoff_ms }),
            None => None,
        };
        let request_id = match self.request_id {
            Some(id) => id,
            None => generate_request_id(),
        };
        EvalRequest {
            metric: self.metric,
            params: self.params,
            input: self.input,
            extract: self.extract,
            retry,
            provider: self.provider,
            request_id,
        }
    }
}

/// Resolves the metric of a request and preprocesses its input: the first
/// steps of an evaluation, before the metric runs.
pub fn prepare_evaluation<'a>(registry: &'a MetricRegistry, request: &EvalRequest) -> (res: Result<(&'a MetricDescriptor, Json), EvalError>)
    ensures
        registry.named(request.metric@) is None ==> res matches Err(EvalError::MetricNotFound(_)),
        registry.named(request.metric@) matches Some(d) ==> match request.extract {
            None => res matches Ok((m, i)) && *m == d && i.v() == request.input.v(),
            Some(c) => match preprocess_spec(request.input.v(), c) {
                Ok(v) => res matches Ok((m, i)) && *m == d && i.v() == v,
                Err(f) => res matches Err(e) && failure_error(f, e),
            },
        },
{
    let metric = crate::metrics::route_metric(registry, request.metric.as_str())?;
    let input = match &request.extract {
        Some(config) => preprocess(&request.input, config)?,
        None => request.input.copy(),
    };
    Ok((metric, input))
}

/// Why preprocessing fails.
pub enum PreprocessFailure {
    /// The JSON path names no value.
    PathNotFound,
    /// The pattern is refused, or the input is not a string.
    InvalidParams,
    /// The pattern does not match.
    NoMatch,
}

/// The error with which a preprocessing failure is reported.
pub open spec fn failure_error(f: PreprocessFailure, e: EvalError) -> bool {
    match f {
        PreprocessFailure::PathNotFound => e is JsonPathNotFound,
        PreprocessFailure::InvalidParams => e is InvalidParams,
        PreprocessFailure::NoMatch => e is RegexNoMatch,
    }
}

/// What [`preprocess`] yields, as a value or as a failure.
pub open spec fn preprocess_spec(input: JsonV, config: PreprocessConfig) -> Result<JsonV, PreprocessFailure> {
    match config {
        PreprocessConfig::JsonPath { json_path } => match walk(input, path_segments(json_path@)) {
            Some(v) => Ok(converted(v)),
            None => Err(PreprocessFailure::PathNotFound),
        },
        PreprocessConfig::Regex { regex } => match input {
            JsonV::Str(s) => if !crate::pattern::regex_valid(regex@) {
                Err(PreprocessFailure::InvalidParams)
            } else {
                match crate::pattern::regex_first_capture(regex@, s) {
                    Some(c) => Ok(converted(JsonV::Str(c))),
                    None => Err(PreprocessFailure::NoMatch),
                }
            },
            _ => Err(PreprocessFailure::InvalidParams),
        },
    }
}

/// How log lines are written.
#[derive(Debug, Clone, Copy, PartialEq, Eq)]
pub enum LogFormat {
    /// One JSON object per line.
    Json,
    /// Multi-line human-readable text.
    Pretty,
}

/// The log format a configuration names: `json` or `jsonl` give JSON lines,
/// `text` and `pretty` give text; any other name falls back to text (`false`
/// in the second component marks the fallback).
pub fn log_format_kind(format: &str) -> (res: (LogFormat, bool))
    ensures
        res.0 == (if format@ == "json"@ || format@ == "jsonl"@ { LogFormat::Json } else { LogFormat::Pretty }),
        res.1 == (format@ == "json"@ || format@ == "jsonl"@ || format@ == "text"@ || format@ == "pretty"@),
{
    let f = owned(format);
    if f == owned("json") || f == owned("jsonl") {
        (LogFormat::Json, true)
    } else if f == owned("text") || f == owned("pretty") {
        (LogFormat::Pretty, true)
    } else {
        (LogFormat::Pretty, false)
    }
}

/// One log event as it is streamed to clients.
#[derive(Debug, Clone)]
pub struct LogEntry {
    /// Time of the event (RFC 3339).
    pub timestamp: String,
    /// Level (`TRACE` to `ERROR`).
    pub level: String,
    /// Message text.
    pub message: String,
    /// Target, usually the module path.
    pub target: Option<String>,
    /// Source file.
    pub file: Option<String>,
    /// Source line.
    pub line: Option<u32>,
}

} // verus!
