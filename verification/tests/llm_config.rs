use sextant::llm_config::{
    default_max_tokens, default_perception_model, default_strategy_model, default_timeout, validate_references,
    ConfigError, EnvReference, ModelRef, RemoteEndpoint, RoleMapping,
};

fn interpolate(s: &str, lookup: impl Fn(&str) -> Option<String>) -> String {
    let mut result = s.to_string();
    while let Some(r) = EnvReference::first(&result) {
        let value = lookup(r.name).unwrap_or_default();
        result = r.replaced_by(&value);
    }
    result
}

fn model(name: &str, provider: &str) -> ModelRef {
    ModelRef { name: name.to_string(), provider: provider.to_string() }
}

fn roles(perception: &str, strategy: &str, risk: Option<&str>, fallback: Option<&str>) -> RoleMapping {
    RoleMapping {
        perception: perception.to_string(),
        strategy: strategy.to_string(),
        risk: risk.map(|s| s.to_string()),
        fallback: fallback.map(|s| s.to_string()),
    }
}

#[test]
fn test_validate_unknown_provider() {
    // [models.bad] provider = "nonexistent"; roles take their defaults.
    let result = validate_references(
        &vec![],
        &vec![model("bad", "nonexistent")],
        &roles(&default_perception_model(), &default_strategy_model(), None, None),
    );
    assert!(result.is_err());
    assert!(result.unwrap_err().message().contains("unknown provider"));
}

#[test]
fn valid_references_and_role_errors() {
    let providers = vec!["openrouter".to_string()];
    let models = vec![model("small", "openrouter"), model("large", "openrouter")];
    assert!(validate_references(&providers, &models, &roles("small", "large", None, Some("small"))).is_ok());
    // Empty role references are allowed.
    assert!(validate_references(&providers, &models, &roles("", "", None, None)).is_ok());
    match validate_references(&providers, &models, &roles("small", "large", Some("huge"), None)) {
        Err(e @ ConfigError::UnknownRoleModel { .. }) => {
            assert_eq!(e.message(), "Role 'risk' references unknown model 'huge'");
        }
        other => panic!("expected UnknownRoleModel, got {:?}", other),
    }
    // Providers are checked before roles.
    let bad = vec![model("small", "openrouter"), model("x", "nowhere")];
    match validate_references(&providers, &bad, &roles("missing", "large", None, None)) {
        Err(e @ ConfigError::UnknownProvider { .. }) => {
            assert_eq!(e.message(), "Model 'x' references unknown provider 'nowhere'");
        }
        other => panic!("expected UnknownProvider, got {:?}", other),
    }
}

#[test]
fn role_models_fall_back() {
    let r = roles("small", "large", None, None);
    assert_eq!(r.model_for_role("perception").as_deref(), Some("small"));
    assert_eq!(r.model_for_role("strategy").as_deref(), Some("large"));
    assert_eq!(r.model_for_role("risk").as_deref(), Some("large"));
    assert_eq!(r.model_for_role("fallback").as_deref(), Some("small"));
    assert_eq!(r.model_for_role("navigator"), None);
    let r = roles("small", "large", Some("risky"), Some("backup"));
    assert_eq!(r.model_for_role("risk").as_deref(), Some("risky"));
    assert_eq!(r.model_for_role("fallback").as_deref(), Some("backup"));
}

#[test]
fn defaults() {
    assert_eq!(default_timeout(), 30);
    assert_eq!(default_max_tokens(), 512);
    assert_eq!(default_perception_model(), "small");
    assert_eq!(default_strategy_model(), "large");
}

#[test]
fn test_env_interpolation() {
    let env = |name: &str| if name == "TEST_API_KEY" { Some("sk-interpolated".to_string()) } else { None };
    let result = interpolate("Bearer ${TEST_API_KEY}", env);
    assert_eq!(result, "Bearer sk-interpolated");
}

#[test]
fn env_references_split_around_the_first_placeholder() {
    let r = EnvReference::first("a${X}b${Y}c").unwrap();
    assert_eq!((r.before, r.name, r.after), ("a", "X", "b${Y}c"));
    assert_eq!(r.replaced_by("1"), "a1b${Y}c");
    assert!(EnvReference::first("no refs").is_none());
    assert!(EnvReference::first("open ${X").is_none());
    let r = EnvReference::first("}${}").unwrap();
    assert_eq!((r.before, r.name, r.after), ("}", "", ""));
    let unset = interpolate("${MISSING}/v1 ${A}", |n: &str| if n == "A" { Some("x".to_string()) } else { None });
    assert_eq!(unset, "/v1 x");
}

#[test]
fn remote_test_openrouter_preset() {
    let config = RemoteEndpoint::openrouter("sk-test", "qwen/qwen3-8b");
    assert_eq!(config.api_base, "https://openrouter.ai/api/v1");
    assert_eq!(config.model, "qwen/qwen3-8b");
}

#[test]
fn test_local_preset() {
    let config = RemoteEndpoint::local(8000, "qwen3-8b");
    assert_eq!(config.api_base, "http://localhost:8000/v1");
}

#[test]
fn test_chat_url() {
    let endpoint = RemoteEndpoint::openrouter("sk-test", "qwen/qwen3-8b");
    assert_eq!(endpoint.chat_url(), "https://openrouter.ai/api/v1/chat/completions");
}

#[test]
fn endpoint_defaults() {
    let d = RemoteEndpoint::default();
    assert_eq!((d.api_base.as_str(), d.api_key.as_str(), d.model.as_str()), ("https://openrouter.ai/api/v1", "", "qwen/qwen3-8b"));
    assert_eq!((d.max_tokens, d.timeout_secs), (512, 30));
    let l = RemoteEndpoint::local(0, "m");
    assert_eq!((l.api_base.as_str(), l.api_key.as_str(), l.timeout_secs), ("http://localhost:0/v1", "not-needed", 60));
    assert_eq!(RemoteEndpoint::local(65535, "m").api_base, "http://localhost:65535/v1");
}
