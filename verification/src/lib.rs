//! Verified core of an LLM evaluation service: text metrics, judge scoring,
//! response parsing, registries, rate limiting and query planning.

pub mod bleu;
pub mod decimal;
pub mod error;
pub mod json;
pub mod judge_details;
pub mod judge_run;
pub mod judge;
pub mod lcs;
pub mod pattern;
pub mod llm_judge;
pub mod metrics;
pub mod ngram;
pub mod preprocess;
pub mod prompts;
pub mod provider;
pub mod query;
pub mod reply;
pub mod rate_limit;
pub mod retry;
pub mod rouge;
pub mod score;
pub mod service;
pub mod settings;
pub mod text;
