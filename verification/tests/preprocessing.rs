use eval_rs::error::EvalError;
use eval_rs::json::Json;
use eval_rs::preprocess::{PreprocessConfig, auto_convert, extract_by_path, extract_by_regex, preprocess, split_str};

fn obj(members: Vec<(&str, Json)>) -> Json {
    Json::Object(members.into_iter().map(|(k, v)| (k.to_string(), v)).collect())
}

fn text(t: &str) -> Json {
    Json::Str(t.to_string())
}

#[test]
fn test_convert_json_string() {
    let input = text(r#"{"key": "value"}"#);
    let result = auto_convert(input).unwrap();
    assert_eq!(result, obj(vec![("key", text("value"))]));
}

#[test]
fn test_keep_plain_string() {
    let input = text("hello world");
    let result = auto_convert(input).unwrap();
    assert_eq!(result, text("hello world"));
}

#[test]
fn test_keep_non_string() {
    let input = Json::Number("42".to_string());
    let result = auto_convert(input).unwrap();
    assert_eq!(result, Json::Number("42".to_string()));
}

#[test]
fn test_extract_nested() {
    let input = obj(vec![("data", obj(vec![("response", obj(vec![("text", text("hello"))]))]))]);
    let result = extract_by_path(&input, "data.response.text").unwrap();
    assert_eq!(result, text("hello"));
}

#[test]
fn test_extract_simple() {
    let input = obj(vec![("name", text("test"))]);
    let result = extract_by_path(&input, "name").unwrap();
    assert_eq!(result, text("test"));
}

#[test]
fn test_path_not_found() {
    let input = obj(vec![("name", text("test"))]);
    let result = extract_by_path(&input, "nonexistent.path");
    assert!(matches!(result, Err(EvalError::JsonPathNotFound(_))));
}

#[test]
fn test_extract_with_capture_group() {
    let result = extract_by_regex("Answer: 42", r"Answer:\s*(.+)").unwrap();
    assert_eq!(result, "42");
}

#[test]
fn test_extract_without_capture_group() {
    let result = extract_by_regex("hello world", r"world").unwrap();
    assert_eq!(result, "world");
}

#[test]
fn test_no_match() {
    let result = extract_by_regex("hello world", r"nonexistent");
    assert!(matches!(result, Err(EvalError::RegexNoMatch)));
}

#[test]
fn test_invalid_regex() {
    let result = extract_by_regex("test", r"[");
    assert!(matches!(result, Err(EvalError::InvalidParams(_))));
}

#[test]
fn split_keeps_empty_pieces() {
    assert_eq!(split_str("a..b", '.'), vec!["a".to_string(), String::new(), "b".to_string()]);
    assert_eq!(split_str("", '.'), vec![String::new()]);
}

#[test]
fn preprocess_converts_what_it_extracts() {
    let input = obj(vec![("out", text("[1, 2]"))]);
    let cfg = PreprocessConfig::JsonPath { json_path: "out".to_string() };
    let r = preprocess(&input, &cfg).unwrap();
    assert_eq!(r, Json::Array(vec![Json::Number("1".to_string()), Json::Number("2".to_string())]));
    let cfg = PreprocessConfig::Regex { regex: r"=(\d+)".to_string() };
    assert_eq!(preprocess(&text("x=7"), &cfg).unwrap(), Json::Number("7".to_string()));
    assert!(matches!(preprocess(&Json::Null, &cfg), Err(EvalError::InvalidParams(_))));
}

#[test]
fn dollar_path_starts_at_the_root() {
    let data = obj(vec![("ref", text("北京是首都")), ("ans", text("北京是中国的首都"))]);
    let input = obj(vec![("data", data.copy())]);
    assert_eq!(extract_by_path(&input, "$.data").unwrap(), data);
    assert_eq!(extract_by_path(&input, "$").unwrap(), input);
    assert_eq!(extract_by_path(&input, "$.data.ref").unwrap(), text("北京是首都"));
    assert!(matches!(extract_by_path(&input, "$.missing"), Err(EvalError::JsonPathNotFound(p)) if p == "$.missing"));
}
