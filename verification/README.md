# eval_rs

An LLM evaluation service: text metrics (ROUGE, BLEU), LLM-as-judge metrics
driven by prompt templates, input preprocessing, rate-limited provider calls
and result storage, served over HTTP.

The computing core is a Verus-verified library (`src/`); the service around it
(`app/`) does the I/O: HTTP with axum, SQLite with sqlx, model calls with rig,
configuration and logging.

## Layout

- `src/` — the verified library
  - `text`, `lcs`, `ngram`, `rouge`, `bleu`, `score`: tokenizing and the text
    metrics, with exact fractions as scores
  - `json`, `decimal`: the JSON document model and numbers read from text
    (exact decimals, infinity, not-a-number)
  - `pattern`, `reply`: regular-expression capture, and reading JSON objects,
    verdicts and scores from judge replies
  - `judge`, `judge_run`, `judge_details`: judge score formulas, multi-step
    judge runs as a state machine (the caller sends the calls it names), and
    the details reported with a finished run
  - `llm_judge`: the single-prompt judge metric
  - `prompts`: prompt templates, their registry and rendering
  - `preprocess`: JSON-path and regular-expression input selection
  - `metrics`: metric descriptors, their registry, parameter reading
  - `provider`, `rate_limit`, `retry`: provider table, token buckets, backoff
  - `query`: SQL statements and placeholder order of the result queries
  - `service`, `settings`, `error`: requests, responses, health, configuration
- `app/` — the service: routes, engine loop, storage, providers, logging
- `tests/` — tests of the library

## Checking

Verus checks every function in `src/` against its `requires`/`ensures`; the
laws of the library are the public `law_*` proof functions and the `ensures`
of the functions they concern.
