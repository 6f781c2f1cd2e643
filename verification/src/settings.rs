//! Application configuration and its defaults.

use vstd::prelude::*;

verus! {

/// Application configuration; every section has defaults.
#[derive(Debug, Clone)]
pub struct AppConfig {
    /// HTTP server.
    pub server: ServerConfig,
    /// Logging.
    pub log: LogConfig,
    /// LLM providers by name.
    pub providers: Vec<(String, ProviderConfig)>,
    /// Rate limits.
    pub limits: LimitsConfig,
    /// Prompt templates.
    pub prompts: PromptsConfig,
    /// Evaluation.
    pub eval: EvalConfig,
    /// Result storage.
    pub storage: StorageConfig,
}

/// HTTP server address.
#[derive(Debug, Clone)]
pub struct ServerConfig {
    /// Listen host, `"0.0.0.0"` by default.
    pub host: String,
    /// Listen port, 8080 by default.
    pub port: u16,
}

/// Logging level and output format.
#[derive(Debug, Clone)]
pub struct LogConfig {
    /// Level: error, warn, info (default), debug or trace.
    pub level: String,
    /// Format: text (default), pretty, json or jsonl.
    pub format: String,
}

/// One LLM provider.
#[derive(Debug, Clone)]
pub struct ProviderConfig {
    /// `"openai"` or `"anthropic"`.
    pub provider_type: String,
    /// Base URL of an OpenAI-compatible service.
    pub base_url: Option<String>,
    /// API key.
    pub api_key: Option<String>,
    /// Model name.
    pub model: String,
    /// Whether this is the default provider.
    pub default: bool,
}

/// Concurrency and rate limits for LLM calls.
#[derive(Debug, Clone)]
pub struct LimitsConfig {
    /// Maximum concurrent requests, 10 by default.
    pub max_concurrency: usize,
    /// Requests per minute, 60 by default.
    pub requests_per_minute: u64,
    /// Tokens per minute, if limited.
    pub tokens_per_minute: Option<u64>,
    /// Tokens per second, if limited.
    pub tokens_per_second: Option<u64>,
}

/// Where prompt templates are read from.
#[derive(Debug, Clone)]
pub struct PromptsConfig {
    /// Directory of prompt files, `"prompts"` by default.
    pub dir: String,
}

/// Evaluation settings.
#[derive(Debug, Clone)]
pub struct EvalConfig {
    /// Evaluation timeout in seconds, 120 by default.
    pub timeout_secs: u64,
}

/// Result storage settings.
#[derive(Debug, Clone)]
pub struct StorageConfig {
    /// Whether results are stored, true by default.
    pub enabled: bool,
    /// Database file, `"data/eval.db"` by default.
    pub db_path: String,
}

/// Default listen host.
pub fn default_host() -> (res: String)
    ensures
        res@ == "0.0.0.0"@,
{
    "0.0.0.0".to_string()
}

/// Default listen port.
pub fn default_port() -> (res: u16)
    ensures
        res == 8080,
{
    8080
}

/// Default log level.
pub fn default_log_level() -> (res: String)
    ensures
        res@ == "info"@,
{
    "info".to_string()
}

/// Default log format.
pub fn default_log_format() -> (res: String)
    ensures
        res@ == "text"@,
{
    "text".to_string()
}

/// Default maximum concurrency.
pub fn default_max_concurrency() -> (res: usize)
    ensures
        res == 10,
{
    10
}

/// Default requests per minute.
pub fn default_rpm() -> (res: u64)
    ensures
        res == 60,
{
    60
}

/// Default prompt directory.
pub fn default_prompts_dir() -> (res: String)
    ensures
        res@ == "prompts"@,
{
    "prompts".to_string()
}

/// Default evaluation timeout in seconds.
pub fn default_eval_timeout() -> (res: u64)
    ensures
        res == 120,
{
    120
}

/// Storage is enabled by default.
pub fn default_storage_enabled() -> (res: bool)
    ensures
        res,
{
    true
}

/// Default database path.
pub fn default_db_path() -> (res: String)
    ensures
        res@ == "data/eval.db"@,
{
    "data/eval.db".to_string()
}

impl Default for ServerConfig {
    fn default() -> (res: Self)
        ensures
            res.host@ == "0.0.0.0"@,
            res.port == 8080,
    {
        ServerConfig { host: default_host(), port: default_port() }
    }
}

impl Default for LogConfig {
    fn default() -> (res: Self)
        ensures
            res.level@ == "info"@,
            res.format@ == "text"@,
    {
        LogConfig { level: default_log_level(), format: default_log_format() }
    }
}

impl Default for LimitsConfig {
    fn default() -> (res: Self)
        ensures
            res.max_concurrency == 10,
            res.requests_per_minute == 60,
            res.tokens_per_minute is None,
            res.tokens_per_second is None,
    {
        LimitsConfig {
            max_concurrency: default_max_concurrency(),
            requests_per_minute: default_rpm(),
            tokens_per_minute: None,
            tokens_per_second: None,
        }
    }
}

impl Default for PromptsConfig {
    fn default() -> (res: Self)
        ensures
            res.dir@ == "prompts"@,
    {
        PromptsConfig { dir: default_prompts_dir() }
    }
}

impl Default for EvalConfig {
    fn default() -> (res: Self)
        ensures
            res.timeout_secs == 120,
    {
        EvalConfig { timeout_secs: default_eval_timeout() }
    }
}

impl Default for StorageConfig {
    fn default() -> (res: Self)
        ensures
            res.enabled,
            res.db_path@ == "data/eval.db"@,
    {
        StorageConfig { enabled: default_storage_enabled(), db_path: default_db_path() }
    }
}

impl Default for AppConfig {
    fn default() -> (res: Self)
        ensures
            res.server.host@ == "0.0.0.0"@,
            res.server.port == 8080,
            res.log.level@ == "info"@,
            res.log.format@ == "text"@,
            res.providers@.len() == 0,
            res.limits.max_concurrency == 10,
            res.limits.requests_per_minute == 60,
            res.limits.tokens_per_minute is None,
            res.limits.tokens_per_second is None,
            res.prompts.dir@ == "prompts"@,
            res.eval.timeout_secs == 120,
            res.storage.enabled,
            res.storage.db_path@ == "data/eval.db"@,
    {
        AppConfig {
            server: ServerConfig::default(),
            log: LogConfig::default(),
            providers: Vec::new(),
            limits: LimitsConfig::default(),
            prompts: PromptsConfig::default(),
            eval: EvalConfig::default(),
            storage: StorageConfig::default(),
        }
    }
}

} // verus!
