use eval_rs::bleu::BleuStats;
use eval_rs::error::EvalError;
use eval_rs::json::Json;
use eval_rs::metrics::{BleuMetric, MetricDescriptor, MetricRegistry, RougeMetric, is_llm_metric, route_metric, validate_params};
use eval_rs::query::{AggregateQuery, BindSlot, QueryFilter, query_plan};
use eval_rs::rouge::{RougeDetail, compute_rouge_l, compute_rouge_n};
use eval_rs::score::Ratio;
use eval_rs::preprocess::PreprocessConfig;
use eval_rs::service::{
    EvalRequest, EvalRequestBody, LogFormat, RetryConfigBody, StorageProbe, error_response, health_report,
    log_format_kind, prepare_evaluation,
};

fn obj(members: Vec<(&str, Json)>) -> Json {
    Json::Object(members.into_iter().map(|(k, v)| (k.to_string(), v)).collect())
}

fn text(t: &str) -> Json {
    Json::Str(t.to_string())
}

fn value(r: Ratio) -> f64 {
    r.num as f64 / r.den as f64
}

fn pair(r: &str, h: &str) -> Json {
    obj(vec![("reference", text(r)), ("hypothesis", text(h))])
}

fn rouge_n1() -> Json {
    obj(vec![("variant", text("n")), ("n", Json::Number("1".to_string()))])
}

#[test]
fn test_rouge_1_exact_match() {
    let out = RougeMetric::new().evaluate(&rouge_n1(), &pair("the cat sat on the mat", "the cat sat on the mat")).unwrap();
    assert!((value(out.f1) - 1.0).abs() < 0.001);
}

#[test]
fn test_rouge_1_no_match() {
    let out = RougeMetric::new().evaluate(&rouge_n1(), &pair("the cat sat on the mat", "dogs run fast")).unwrap();
    assert!((value(out.f1) - 0.0).abs() < 0.001);
}

#[test]
fn test_rouge_l() {
    let params = obj(vec![("variant", text("l"))]);
    let out = RougeMetric::new().evaluate(&params, &pair("the cat sat on the mat", "the cat sat")).unwrap();
    assert!(value(out.f1) > 0.0);
    assert!(value(out.f1) < 1.0);
}

#[test]
fn rouge_l_components() {
    let params = obj(vec![("variant", text("l"))]);
    let out = RougeMetric::new().evaluate(&params, &pair("the cat sat on the mat", "the cat on the mat")).unwrap();
    assert_eq!(out.detail, RougeDetail::L { lcs_length: 5 });
    assert!((value(out.recall) - 5.0 / 6.0).abs() < 1e-9);
    assert!((value(out.precision) - 1.0).abs() < 1e-9);
    assert!((value(out.f1) - 10.0 / 11.0).abs() < 1e-9);
}

#[test]
fn rouge_n_uses_distinct_ngrams() {
    let out = compute_rouge_n("a a a b", "a b", 1);
    // distinct unigrams: reference {a, b}, hypothesis {a, b}
    assert_eq!(value(out.f1), 1.0);
    let out = compute_rouge_n("a b c", "a b d", 2);
    assert!((value(out.f1) - 0.5).abs() < 1e-9);
    assert_eq!(value(compute_rouge_l("", "").f1), 0.0);
}

#[test]
fn rouge_needs_both_texts() {
    let r = RougeMetric::new().evaluate(&obj(vec![]), &obj(vec![("reference", text("x"))]));
    assert!(matches!(r, Err(EvalError::InvalidParams(_))));
}

#[test]
fn test_bleu_exact_match() {
    let params = obj(vec![("n", Json::Number("4".to_string()))]);
    let s = BleuMetric::new().evaluate(&params, &pair("the cat sat on the mat", "the cat sat on the mat")).unwrap();
    match s {
        BleuStats::Counted { orders, zero, max_n, .. } => {
            assert!(!zero);
            assert_eq!(max_n, 4);
            assert!(orders.iter().all(|c| c.clipped == c.total));
        },
        BleuStats::EmptyHypothesis => panic!("hypothesis has tokens"),
    }
}

#[test]
fn test_bleu_no_match() {
    let params = obj(vec![("n", Json::Number("4".to_string()))]);
    let s = BleuMetric::new().evaluate(&params, &pair("the cat sat on the mat", "dogs run fast everywhere")).unwrap();
    match s {
        BleuStats::Counted { orders, zero, .. } => {
            assert!(zero);
            assert_eq!(orders.len(), 1);
        },
        BleuStats::EmptyHypothesis => panic!("hypothesis has tokens"),
    }
    let e = BleuMetric::new().evaluate(&obj(vec![]), &pair("x", "")).unwrap();
    assert_eq!(e, BleuStats::EmptyHypothesis);
}

#[test]
fn bleu_order_is_clamped() {
    let params = obj(vec![("n", Json::Number("9".to_string()))]);
    match BleuMetric::new().evaluate(&params, &pair("a b c d e", "a b c d e")).unwrap() {
        BleuStats::Counted { max_n, .. } => assert_eq!(max_n, 4),
        _ => panic!(),
    }
    let params = obj(vec![("n", Json::Number("0".to_string()))]);
    match BleuMetric::new().evaluate(&params, &pair("a b", "a b")).unwrap() {
        BleuStats::Counted { max_n, .. } => assert_eq!(max_n, 1),
        _ => panic!(),
    }
}

fn desc(name: &str, t: &str) -> MetricDescriptor {
    MetricDescriptor { name: name.to_string(), metric_type: t.to_string(), params_schema: Vec::new() }
}

#[test]
fn registry_replaces_by_name() {
    let mut reg = MetricRegistry::new();
    reg.register(desc("rouge", "non_llm"));
    reg.register(desc("judge", "llm"));
    reg.register(desc("rouge", "llm"));
    assert_eq!(reg.list().len(), 2);
    assert!(is_llm_metric(reg.get("rouge").unwrap()));
    assert!(matches!(route_metric(&reg, "nope"), Err(EvalError::MetricNotFound(n)) if n == "nope"));
    assert_eq!(route_metric(&reg, "judge").unwrap().metric_type, "llm");
}

#[test]
fn params_are_validated_against_the_schema() {
    let schema = vec![
        ("a".to_string(), obj(vec![("required", Json::Bool(false))])),
        ("b".to_string(), obj(vec![])),
    ];
    assert!(validate_params(&obj(vec![("b", Json::Null)]), &schema).is_ok());
    assert!(matches!(validate_params(&obj(vec![("a", Json::Null)]), &schema), Err(EvalError::InvalidParams(_))));
}

#[test]
fn errors_map_to_status_and_code() {
    let (s, body) = error_response(&EvalError::MetricNotFound("m".to_string()));
    assert_eq!((s, body.error.as_str(), body.details.as_str()), (404, "metric_not_found", "m"));
    let (s, body) = error_response(&EvalError::JudgeParseFailed("x".to_string()));
    assert_eq!((s, body.error.as_str()), (422, "judge_parse_failed"));
    assert_eq!(error_response(&EvalError::RateLimitTimeout).0, 429);
    assert_eq!(error_response(&EvalError::EvalTimeout).0, 504);
    assert_eq!(error_response(&EvalError::LlmCallError(String::new())).0, 502);
    let (s, body) = error_response(&EvalError::RegexNoMatch);
    assert_eq!((s, body.error.as_str(), body.details.as_str()), (400, "regex_no_match", ""));
}

#[test]
fn health_is_degraded_by_any_error() {
    let h = health_report(StorageProbe::Healthy, true);
    assert_eq!(h.status, "ok");
    assert!(h.dependencies.is_empty());
    let h = health_report(StorageProbe::Disabled, true);
    assert_eq!(h.status, "ok");
    assert!(h.dependencies.is_empty());
    let h = health_report(StorageProbe::Failed("down".to_string()), true);
    assert_eq!(h.status, "degraded");
    assert_eq!(h.dependencies[0].0, "sqlite");
    assert_eq!(h.dependencies[0].1.error.as_deref(), Some("down"));
    assert_eq!(h.dependencies[1].1.status, "ok");
    let h = health_report(StorageProbe::Disabled, false);
    assert_eq!(h.status, "degraded");
    assert_eq!(h.dependencies[0].1.status, "disabled");
    let h = health_report(StorageProbe::Healthy, false);
    assert_eq!(h.status, "degraded");
    assert_eq!(h.dependencies[1].1.error.as_deref(), Some("no LLM providers configured"));
}

#[test]
fn request_ids_are_kept_or_generated() {
    let body = EvalRequestBody {
        metric: "rouge".to_string(),
        params: obj(vec![]),
        input: Json::Null,
        extract: None,
        retry: Some(RetryConfigBody { max_attempts: 2, backoff_ms: 5 }),
        provider: None,
        request_id: Some("r1".to_string()),
    };
    let req = body.to_engine_request();
    assert_eq!(req.request_id, "r1");
    assert_eq!(req.retry.map(|r| (r.max_attempts, r.backoff_ms)), Some((2, 5)));
    let body = EvalRequestBody {
        metric: "rouge".to_string(),
        params: obj(vec![]),
        input: Json::Null,
        extract: None,
        retry: None,
        provider: None,
        request_id: None,
    };
    let req = body.to_engine_request();
    assert_eq!(req.request_id.len(), 36);
    for (i, c) in req.request_id.chars().enumerate() {
        if [8, 13, 18, 23].contains(&i) {
            assert_eq!(c, '-');
        } else {
            assert!(c.is_ascii_digit() || ('a'..='f').contains(&c));
        }
    }
}

#[test]
fn log_formats() {
    assert_eq!(log_format_kind("jsonl"), (LogFormat::Json, true));
    assert_eq!(log_format_kind("pretty"), (LogFormat::Pretty, true));
    assert_eq!(log_format_kind("xml"), (LogFormat::Pretty, false));
}

#[test]
fn listing_statement_follows_the_filters() {
    let f = QueryFilter {
        metric: Some("rouge".to_string()),
        request_id: None,
        has_min_score: true,
        has_max_score: false,
        start_time: None,
        end_time: Some("2024".to_string()),
        provider: None,
        model: None,
        offset: 5,
        limit: 500,
    };
    let p = query_plan(&f);
    assert!(p.sql.contains(" AND metric = ? AND score >= ? AND created_at <= ? ORDER BY"));
    assert_eq!(p.binds, vec![BindSlot::Metric, BindSlot::MinScore, BindSlot::EndTime, BindSlot::Limit(100), BindSlot::Offset(5)]);
    assert_eq!(p.sql.matches('?').count(), p.binds.len());
}

#[test]
fn aggregation_statements_share_conditions() {
    let q = AggregateQuery { metric: "m".to_string(), start_time: Some("a".to_string()), end_time: None };
    let p = q.plan();
    assert!(p.stats.sql.ends_with("WHERE metric = ? AND created_at >= ?;"));
    assert_eq!(p.stats.binds, vec![BindSlot::Metric, BindSlot::StartTime]);
    assert_eq!(p.variance.binds.len(), 6);
    assert_eq!(p.variance.sql.matches('?').count(), 6);
}

#[test]
fn rouge_swaps_precision_and_recall() {
    let a = compute_rouge_n("the cat sat on the mat", "the cat is here", 1);
    let b = compute_rouge_n("the cat is here", "the cat sat on the mat", 1);
    assert_eq!(value(a.precision), value(b.recall));
    assert_eq!(value(a.recall), value(b.precision));
    assert_eq!(value(a.f1), value(b.f1));
    let l1 = compute_rouge_l("a b c d", "b d e");
    let l2 = compute_rouge_l("b d e", "a b c d");
    assert_eq!(l1.detail, RougeDetail::L { lcs_length: 2 });
    assert_eq!(l2.detail, RougeDetail::L { lcs_length: 2 });
}

#[test]
fn default_listing_filter() {
    let f = QueryFilter::default();
    assert_eq!((f.offset, f.limit), (0, 20));
    let p = query_plan(&f);
    assert_eq!(p.binds, vec![BindSlot::Limit(20), BindSlot::Offset(0)]);
}

#[test]
fn evaluation_preparation_reports_each_failure() {
    let mut reg = MetricRegistry::new();
    reg.register(desc("rouge", "non_llm"));
    let request = |metric: &str, input: Json, extract: Option<PreprocessConfig>| EvalRequest {
        metric: metric.to_string(),
        params: obj(vec![]),
        input,
        extract,
        retry: None,
        provider: None,
        request_id: "r".to_string(),
    };
    let path = |p: &str| Some(PreprocessConfig::JsonPath { json_path: p.to_string() });
    let regex = |p: &str| Some(PreprocessConfig::Regex { regex: p.to_string() });
    let input = obj(vec![("data", Json::Str("score: 7".to_string()))]);
    let (m, i) = prepare_evaluation(&reg, &request("rouge", input.copy(), path("$.data"))).unwrap();
    assert_eq!((m.name.as_str(), i), ("rouge", Json::Str("score: 7".to_string())));
    assert!(matches!(prepare_evaluation(&reg, &request("nope", input.copy(), None)), Err(EvalError::MetricNotFound(_))));
    assert!(matches!(prepare_evaluation(&reg, &request("rouge", input.copy(), path("missing"))), Err(EvalError::JsonPathNotFound(_))));
    let text = Json::Str("score: 7".to_string());
    assert_eq!(prepare_evaluation(&reg, &request("rouge", text.copy(), regex(r"(\d+)"))).unwrap().1, Json::Number("7".to_string()));
    assert!(matches!(prepare_evaluation(&reg, &request("rouge", text.copy(), regex(r"x(\d+)"))), Err(EvalError::RegexNoMatch)));
    assert!(matches!(prepare_evaluation(&reg, &request("rouge", text.copy(), regex("("))), Err(EvalError::InvalidParams(_))));
    assert!(matches!(prepare_evaluation(&reg, &request("rouge", input.copy(), regex("x"))), Err(EvalError::InvalidParams(_))));
}
