use eval_rs::decimal::{Decimal, Number};
use eval_rs::error::EvalError;
use eval_rs::json::Json;
use eval_rs::reply::{
    ParsedScore, Score, ScoreSource, extract_score_from_json, is_affirmative, normalize_score,
    parse_json, parse_judge_response, parse_verdict,
};

fn dec_f64(d: &Decimal) -> f64 {
    let m = d.mantissa as f64 * 10f64.powi(d.exponent as i32);
    if d.negative { -m } else { m }
}

fn score_f64(s: &Score) -> f64 {
    dec_f64(&s.value) / dec_f64(&s.divisor)
}

fn scale(n: u128) -> Decimal {
    Decimal { negative: false, mantissa: n, exponent: 0 }
}

fn parse(response: &str, regex: Option<&str>, s: u128) -> ParsedScore {
    parse_judge_response(response, regex, scale(s)).unwrap()
}

fn obj(members: Vec<(&str, Json)>) -> Json {
    Json::Object(members.into_iter().map(|(k, v)| (k.to_string(), v)).collect())
}

fn num(t: &str) -> Json {
    Json::Number(t.to_string())
}

fn text(t: &str) -> Json {
    Json::Str(t.to_string())
}

#[test]
fn test_parse_pure_number() {
    let p = parse("0.85", None, 100);
    assert!((score_f64(&p.score) - 0.85).abs() < 0.001);
}

#[test]
fn test_parse_percentage() {
    let p = parse("85", None, 100);
    assert!((score_f64(&p.score) - 0.85).abs() < 0.001);
}

#[test]
fn test_parse_percentage_custom_scale() {
    let p = parse("4", None, 5);
    assert!((score_f64(&p.score) - 0.8).abs() < 0.001);
}

#[test]
fn test_parse_json() {
    let p = parse(r#"{"score": 0.9, "reason": "good"}"#, None, 100);
    assert!((score_f64(&p.score) - 0.9).abs() < 0.001);
}

#[test]
fn test_parse_json_with_label() {
    let p = parse(r#"{"Score": 0.78}"#, None, 100);
    assert!((score_f64(&p.score) - 0.78).abs() < 0.001);
}

#[test]
fn test_parse_json_string_score() {
    let p = parse(r#"{"score": "0.88"}"#, None, 100);
    assert!((score_f64(&p.score) - 0.88).abs() < 0.001);
}

#[test]
fn test_parse_json_rating_field() {
    let p = parse(r#"{"rating": 4, "max": 5}"#, None, 5);
    assert!((score_f64(&p.score) - 0.8).abs() < 0.001);
}

#[test]
fn test_parse_embedded_json_code_block() {
    let resp = "评估完成。\n```json\n{\"score\": 0.92, \"reason\": \"准确\"}\n```\n谢谢。";
    let p = parse(resp, None, 100);
    assert!((score_f64(&p.score) - 0.92).abs() < 0.001);
}

#[test]
fn test_parse_embedded_json_plain_block() {
    let resp = "结果如下：{\"score\": 0.65, \"reason\": \"部分正确\"} 已完成。";
    let p = parse(resp, None, 100);
    assert!((score_f64(&p.score) - 0.65).abs() < 0.001);
}

#[test]
fn test_parse_with_label() {
    let p = parse("Score: 0.75", None, 100);
    assert!((score_f64(&p.score) - 0.75).abs() < 0.001);
}

#[test]
fn test_parse_with_regex_capture_group() {
    let p = parse("评分结果是：0.83 分。", Some(r"评分结果是：(\d+\.?\d*)\s*分"), 100);
    assert!((score_f64(&p.score) - 0.83).abs() < 0.001);
}

#[test]
fn test_parse_with_regex_whole_match() {
    let p = parse("0.91", Some(r"\d+\.\d+"), 100);
    assert!((score_f64(&p.score) - 0.91).abs() < 0.001);
}

#[test]
fn test_parse_with_regex_extract_json() {
    let resp = "```json\n{\"score\": 0.77, \"reason\": \"ok\"}\n```";
    let p = parse(resp, Some(r"\{[^{}]*\}"), 100);
    assert!((score_f64(&p.score) - 0.77).abs() < 0.001);
}

#[test]
fn test_parse_regex_no_match_fallback_to_json() {
    let resp = r#"{"score": 0.88, "reason": "ok"}"#;
    let p = parse(resp, Some(r"评分\s*[:：]\s*(\d+)"), 100);
    assert!((score_f64(&p.score) - 0.88).abs() < 0.001);
    assert_eq!(p.source, ScoreSource::Json);
}

#[test]
fn test_parse_regex_no_match_fallback_to_number() {
    let p = parse("0.78", Some(r"评分\s*[:：]\s*(\d+)"), 100);
    assert!((score_f64(&p.score) - 0.78).abs() < 0.001);
    assert_eq!(p.source, ScoreSource::Number);
}

#[test]
fn test_parse_regex_invalid_falls_back() {
    let p = parse("0.5", Some(r"("), 100);
    assert!((score_f64(&p.score) - 0.5).abs() < 0.001);
}

#[test]
fn test_parse_failed() {
    let result = parse_judge_response("no score here", None, scale(100));
    assert!(result.is_err());
    assert!(matches!(result, Err(EvalError::JudgeParseFailed(_))));
}

#[test]
fn test_parse_json_plain() {
    let v = parse_json(r#"{"score": 0.9}"#).unwrap();
    assert_eq!(v.get("score"), Some(&num("0.9")));
}

#[test]
fn test_parse_json_code_block() {
    let v = parse_json("```json\n{\"score\": 0.9}\n```").unwrap();
    assert_eq!(v.get("score"), Some(&num("0.9")));
}

#[test]
fn test_parse_json_inline() {
    let v = parse_json("结果：{\"score\": 0.8} 完成。").unwrap();
    assert_eq!(v.get("score"), Some(&num("0.8")));
}

#[test]
fn test_parse_verdict_number() {
    assert!(parse_verdict(&obj(vec![("verdict", num("1"))]), &["verdict"]).unwrap());
    assert!(!parse_verdict(&obj(vec![("verdict", num("0"))]), &["verdict"]).unwrap());
}

#[test]
fn test_parse_verdict_bool() {
    assert!(parse_verdict(&obj(vec![("correct", Json::Bool(true))]), &["correct"]).unwrap());
}

#[test]
fn test_parse_verdict_string() {
    assert!(parse_verdict(&obj(vec![("relevant", text("yes"))]), &["relevant"]).unwrap());
    assert!(!parse_verdict(&obj(vec![("relevant", text("no"))]), &["relevant"]).unwrap());
}

#[test]
fn verdict_uses_the_first_field_present_and_reads_fractions() {
    let j = obj(vec![("verdict", num("0.75")), ("match", Json::Bool(false))]);
    assert!(!parse_verdict(&j, &["match", "verdict"]).unwrap());
    assert!(parse_verdict(&j, &["missing", "verdict"]).unwrap());
    assert!(!parse_verdict(&obj(vec![("verdict", num("0.5"))]), &["verdict"]).unwrap());
    assert!(parse_verdict(&obj(vec![("verdict", num("-2"))]), &["verdict"]).unwrap());
    assert!(parse_verdict(&obj(vec![("verdict", text("TRUE"))]), &["verdict"]).unwrap());
}

#[test]
fn verdict_errors() {
    let j = obj(vec![("verdict", Json::Null)]);
    assert!(matches!(parse_verdict(&j, &["verdict"]), Err(EvalError::JudgeParseFailed(_))));
    assert!(matches!(parse_verdict(&j, &["other"]), Err(EvalError::JudgeParseFailed(_))));
    assert!(matches!(parse_json("no json at all"), Err(EvalError::JudgeParseFailed(_))));
}

#[test]
fn affirmative_words() {
    assert!(is_affirmative("Yes"));
    assert!(is_affirmative("1"));
    assert!(is_affirmative("tRuE"));
    assert!(!is_affirmative("yes "));
    assert!(!is_affirmative("0"));
}

#[test]
fn score_keys_are_tried_in_order() {
    let j = obj(vec![("result", num("3")), ("rating", text("oops")), ("Rating", num("2"))]);
    assert_eq!(extract_score_from_json(&j), Some(Number::Finite(Decimal { negative: false, mantissa: 2, exponent: 0 })));
    assert_eq!(extract_score_from_json(&obj(vec![("other", num("1"))])), None);
}

#[test]
fn normalization_divides_only_scores_above_one() {
    let one = Decimal { negative: false, mantissa: 1, exponent: 0 };
    let s = normalize_score(one, scale(10));
    assert_eq!(s.divisor, one);
    let seven = Decimal { negative: false, mantissa: 7, exponent: 0 };
    assert_eq!(normalize_score(seven, scale(10)).divisor, scale(10));
    let zero_scale = Decimal { negative: false, mantissa: 0, exponent: 0 };
    assert_eq!(normalize_score(seven, zero_scale).divisor, scale(100));
}

#[test]
fn sources_are_reported() {
    assert_eq!(parse("{\"score\": 1}", None, 100).source, ScoreSource::Json);
    assert_eq!(parse("x {\"score\": 1} y", None, 100).source, ScoreSource::EmbeddedJson);
    assert_eq!(parse("Score: 90/100", None, 100).source, ScoreSource::ExtractedNumber);
    let p = parse("Score: 90/100", None, 100);
    assert!((score_f64(&p.score) - 0.9).abs() < 1e-9);
    let q = parse("评分: 7", Some(r"评分:\s*(\d+)"), 10);
    assert_eq!(q.source_regex.as_deref(), Some(r"评分:\s*(\d+)"));
    assert!((score_f64(&q.score) - 0.7).abs() < 1e-9);
}

#[test]
fn normalized_scores_are_clamped_to_unit() {
    let p = parse("150", None, 100);
    assert_eq!(p.raw, Number::Finite(scale(150)));
    assert!((score_f64(&p.score) - 1.0).abs() < 1e-9);
    let q = parse("-5", None, 100);
    assert!(score_f64(&q.score).abs() < 1e-9);
    let big = Decimal { negative: false, mantissa: 5, exponent: 40 };
    assert!((score_f64(&normalize_score(big, scale(10))) - 1.0).abs() < 1e-9);
    let small_scale = Decimal { negative: false, mantissa: 3, exponent: -50 };
    assert!((score_f64(&normalize_score(scale(2), small_scale)) - 1.0).abs() < 1e-9);
    let within = Decimal { negative: false, mantissa: 25, exponent: -1 };
    assert!((score_f64(&normalize_score(within, scale(5))) - 0.5).abs() < 1e-9);
}

#[test]
fn non_finite_replies_are_read() {
    let p = parse("inf", None, 100);
    assert_eq!(p.source, ScoreSource::Number);
    assert_eq!(p.raw, Number::Infinite(false));
    assert!((score_f64(&p.score) - 1.0).abs() < 1e-9);
    let q = parse("-Infinity", None, 100);
    assert_eq!(q.raw, Number::Infinite(true));
    assert!(score_f64(&q.score).abs() < 1e-9);
    let r = parse("NaN", None, 100);
    assert_eq!(r.raw, Number::NaN);
    assert!(score_f64(&r.score).abs() < 1e-9);
    let j = obj(vec![("score", text(" inf "))]);
    assert_eq!(extract_score_from_json(&j), Some(Number::Infinite(false)));
}

#[test]
fn long_numbers_are_read() {
    let long = "0.12345678901234567890123456789012345678901234567890";
    let p = parse(long, None, 100);
    assert!((score_f64(&p.score) - 0.12345678901234568).abs() < 1e-12);
    let q = parse("123456789012345678901234567890123456789012345", None, 100);
    assert!((score_f64(&q.score) - 1.0).abs() < 1e-9);
    assert_eq!(parse_verdict(&obj(vec![("verdict", num("0.50000000000000000000000000000000000000000001"))]), &["verdict"]).unwrap(), false);
}
