use eval_rs::error::EvalError;
use eval_rs::json::Json;
use eval_rs::prompts::{PromptRegistry, PromptTemplate, VariableSchema, context_from_json, render};
use eval_rs::provider::{ProviderKind, ProviderManager, provider_kind};
use eval_rs::rate_limit::TokenLimiter;
use eval_rs::service::RetryConfig;
use eval_rs::settings::ProviderConfig;

fn make_template(template: &str, vars: Vec<&str>) -> PromptTemplate {
    let variables = vars
        .into_iter()
        .map(|v| {
            (
                v.to_string(),
                VariableSchema { var_type: "string".to_string(), description: "test".to_string(), required: true },
            )
        })
        .collect();
    PromptTemplate {
        name: "test".to_string(),
        version: "1.0".to_string(),
        description: "test template".to_string(),
        template: template.to_string(),
        variables,
    }
}

#[test]
fn test_render_basic() {
    let template = make_template("Hello, {{ name }}!", vec!["name"]);
    let ctx = vec![("name".to_string(), Json::Str("world".to_string()))];
    let result = render(&template, &ctx).unwrap();
    assert_eq!(result, "Hello, world!");
}

#[test]
fn test_render_missing_required() {
    let template = make_template("Hello, {{ name }}!", vec!["name"]);
    let ctx = Vec::new();
    let result = render(&template, &ctx);
    assert!(matches!(result, Err(EvalError::InvalidPromptVariables(_))));
}

#[test]
fn test_context_from_json() {
    let value = Json::Object(vec![
        ("a".to_string(), Json::Number("1".to_string())),
        ("b".to_string(), Json::Str("hello".to_string())),
    ]);
    let ctx = context_from_json(&value).unwrap();
    assert!(ctx.iter().any(|(k, _)| k == "a"));
    assert!(ctx.iter().any(|(k, _)| k == "b"));
}

#[test]
fn context_of_a_non_object_is_input() {
    let ctx = context_from_json(&Json::Str("x".to_string())).unwrap();
    assert_eq!(ctx, vec![("input".to_string(), Json::Str("x".to_string()))]);
}

#[test]
fn render_reports_template_errors() {
    let template = make_template("Hello, {{ name", vec![]);
    assert!(matches!(render(&template, &Vec::new()), Err(EvalError::PromptRenderError(_))));
}

#[test]
fn registry_get_newest_and_exact_versions() {
    let mut reg = PromptRegistry::new();
    let mut a = make_template("A", vec![]);
    a.version = "1.0".to_string();
    let mut b = make_template("B", vec![]);
    b.version = "2.0".to_string();
    reg.register(a);
    reg.register(b);
    assert_eq!(reg.get("test", None).unwrap().template, "B");
    assert_eq!(reg.get("test", Some("1.0")).unwrap().template, "A");
    assert!(matches!(reg.get("test", Some("3.0")), Err(EvalError::PromptNotFound(_))));
    assert!(matches!(reg.get("other", None), Err(EvalError::PromptNotFound(_))));
    let mut c = make_template("C", vec![]);
    c.version = "1.0".to_string();
    reg.register(c);
    assert_eq!(reg.get("test", Some("1.0")).unwrap().template, "C");
    assert_eq!(reg.list_names(), vec!["test".to_string()]);
}

#[test]
fn test_no_providers_returns_empty() {
    let mgr = ProviderManager::new(Vec::new(), 10, 60, None, None, 0);
    assert!(!mgr.has_any_provider());
    assert!(mgr.list_providers().is_empty());
    assert!(!mgr.has_provider("any"));
}

#[test]
fn test_unsupported_provider_type_skipped() {
    let configs = vec![(
        "bad".to_string(),
        ProviderConfig {
            provider_type: "unsupported".to_string(),
            api_key: None,
            model: "m".to_string(),
            base_url: None,
            default: true,
        },
    )];
    let created: Vec<(String, bool)> = configs
        .iter()
        .filter(|(_, c)| provider_kind(&c.provider_type).is_some())
        .map(|(n, c)| (n.clone(), c.default))
        .collect();
    let mgr = ProviderManager::new(created, 10, 60, None, None, 0);
    assert!(!mgr.has_any_provider());
}

#[test]
fn provider_kinds() {
    assert_eq!(provider_kind("openai"), Some(ProviderKind::OpenAi));
    assert_eq!(provider_kind("anthropic"), Some(ProviderKind::Anthropic));
    assert_eq!(provider_kind("OpenAI"), None);
}

#[test]
fn calls_resolve_provider_model_and_retry() {
    let mgr = ProviderManager::new(vec![("a".to_string(), false), ("b".to_string(), true)], 4, 60, None, None, 0);
    let plan = mgr.resolve_call(None, None, None).unwrap();
    assert_eq!(plan.provider, "b");
    assert_eq!(plan.model, "default");
    assert_eq!((plan.policy.max_attempts, plan.policy.backoff_ms), (3, 1000));
    let plan = mgr.resolve_call(Some("a"), Some("m1"), Some(RetryConfig { max_attempts: 5, backoff_ms: 10 })).unwrap();
    assert_eq!((plan.provider.as_str(), plan.model.as_str()), ("a", "m1"));
    assert_eq!((plan.policy.max_attempts, plan.policy.backoff_ms), (5, 10));
    assert!(matches!(mgr.resolve_call(Some("zz"), None, None), Err(EvalError::ProviderNotConfigured(n)) if n == "zz"));
    let none = ProviderManager::new(vec![("a".to_string(), false)], 4, 60, None, None, 0);
    assert!(matches!(none.resolve_call(None, None, None), Err(EvalError::ProviderNotConfigured(_))));
}

#[test]
fn test_tpm_conversion() {
    let limiter = TokenLimiter::new(Some(60000), None, 0);
    assert!(limiter.is_some());
}

#[test]
fn test_tps_direct() {
    let limiter = TokenLimiter::new(None, Some(1000), 0);
    assert!(limiter.is_some());
}

#[test]
fn test_both_take_min() {
    let limiter = TokenLimiter::new(Some(120), Some(1000), 0);
    assert!(limiter.is_some());
}

#[test]
fn test_no_limits() {
    let limiter = TokenLimiter::new(None, None, 0);
    assert!(limiter.is_none());
}

#[test]
fn token_limiter_refills_and_caps() {
    // 120 per minute and 1000 per second: 2 tokens per second, bucket of 2
    let mut l = TokenLimiter::new(Some(120), Some(1000), 0).unwrap();
    assert!(l.try_acquire(0));
    assert!(l.try_acquire(0));
    assert!(!l.try_acquire(0));
    assert!(l.try_acquire(500_000_000));
    assert!(!l.try_acquire(500_000_000));
    // a zero rate gives no limiter
    assert!(TokenLimiter::new(Some(0), None, 0).is_none());
    // 1 per minute: the first token takes a minute to build up
    let mut slow = TokenLimiter::new(Some(1), None, 0).unwrap();
    assert!(!slow.try_acquire(0));
}

#[test]
fn test_acquire_within_capacity() {
    let mut limiter = TokenLimiter::new(Some(60000), None, 0).unwrap();
    for _ in 0..10 {
        assert!(limiter.try_acquire(0));
    }
}

#[test]
fn test_acquire_timeout() {
    let mut limiter = TokenLimiter::new(Some(1), None, 0).unwrap();
    let _ = limiter.try_acquire(0);
    // 50 ms later still far less than one token has accrued
    assert!(!limiter.try_acquire(50_000_000));
}

#[test]
fn loading_keeps_other_templates_and_passes_errors_on() {
    let mut reg = PromptRegistry::new();
    let mut kept = make_template("kept", vec![]);
    kept.name = "other".to_string();
    reg.register(kept);
    let err = reg.load_from_dir(Err(EvalError::Internal("bad file".to_string())));
    assert!(matches!(err, Err(EvalError::Internal(m)) if m == "bad file"));
    assert_eq!(reg.list_names(), vec!["other".to_string()]);
    let mut v2 = make_template("v2", vec![]);
    v2.version = "2.0".to_string();
    reg.load_from_dir(Ok(vec![make_template("v1", vec![]), v2])).unwrap();
    assert_eq!(reg.get("other", Some("1.0")).unwrap().template, "kept");
    assert_eq!(reg.get("test", Some("1.0")).unwrap().template, "v1");
    assert_eq!(reg.get("test", None).unwrap().template, "v2");
}

#[test]
fn text_without_braces_renders_unchanged() {
    let template = make_template("Plain text, no tags (100% literal).", vec![]);
    assert_eq!(render(&template, &Vec::new()).unwrap(), "Plain text, no tags (100% literal).");
}

#[test]
fn variables_are_substituted_as_text() {
    let template = make_template("Q: {{question}}\nA: {{  answer }} {\"k\": 1} }}", vec!["question", "answer"]);
    let ctx = vec![
        ("question".to_string(), Json::Str("old".to_string())),
        ("answer".to_string(), Json::Str("<b>{{ x }}</b> & more".to_string())),
        ("question".to_string(), Json::Str("What is 2+2?".to_string())),
    ];
    assert_eq!(
        render(&template, &ctx).unwrap(),
        "Q: What is 2+2?\nA: <b>{{ x }}</b> & more {\"k\": 1} }}"
    );
    let mut reg = PromptRegistry::new();
    reg.register(make_template("{{ a1 }}-{{ b_2 }}", vec![]));
    let t = reg.get("test", None).unwrap();
    let ctx = vec![("a1".to_string(), Json::Str("x".to_string())), ("b_2".to_string(), Json::Str("y".to_string()))];
    assert_eq!(reg.render(t, &ctx).unwrap(), "x-y");
}
