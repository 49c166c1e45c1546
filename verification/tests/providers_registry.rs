use raven::providers::{
    api_key_env_name, create_provider, plan_chain, plan_name, resolve_api_key, ChainPlan, ProviderConfig,
    ProviderPlan, ProviderRegistry,
};

fn config(provider_type: &str, base_url: Option<&str>) -> ProviderConfig {
    ProviderConfig {
        provider_type: provider_type.to_string(),
        base_url: base_url.map(|s| s.to_string()),
        api_key: None,
        api_key_env: None,
        default_model: None,
        headers: Vec::new(),
        timeout_secs: 60,
        max_retries: 3,
        fallback_chain: None,
        health_check_interval_secs: 0,
        circuit_breaker_threshold: 0,
    }
}

#[test]
fn test_resolve_api_key_direct() {
    let result = resolve_api_key(&Some("sk-direct".into()), &Some("API_KEY".into()), None);
    assert_eq!(result, Some("sk-direct".into()));
}

#[test]
fn test_resolve_api_key_env() {
    let env_var = Some("TEST_ODIN_KEY".to_string());
    assert_eq!(api_key_env_name(&None, &env_var), Some("TEST_ODIN_KEY".to_string()));
    let result = resolve_api_key(&None, &env_var, Some("sk-from-env".to_string()));
    assert_eq!(result, Some("sk-from-env".into()));
}

#[test]
fn test_resolve_api_key_none() {
    let result = resolve_api_key(&None, &None, None);
    assert_eq!(result, None);
}

#[test]
fn resolve_api_key_skips_empty_values() {
    // An empty direct key falls through to the variable.
    assert_eq!(
        resolve_api_key(&Some(String::new()), &Some(" KEY ".into()), Some("v".into())),
        Some("v".to_string())
    );
    assert_eq!(api_key_env_name(&Some(String::new()), &Some(" KEY ".into())), Some("KEY".to_string()));
    // A set but empty variable gives no key.
    assert_eq!(resolve_api_key(&None, &Some("KEY".into()), Some(String::new())), None);
    // A blank variable name is not read.
    assert_eq!(api_key_env_name(&None, &Some("   ".into())), None);
    assert_eq!(resolve_api_key(&None, &Some("   ".into()), Some("v".into())), None);
    // A direct key wins and the variable is not named.
    assert_eq!(api_key_env_name(&Some("k".into()), &Some("KEY".into())), None);
}

#[test]
fn test_create_provider_unknown_type() {
    let cfg = config("nonexistent", None);
    let result = create_provider(&cfg, None);
    assert!(result.is_err());
    let err = match result {
        Err(e) => e,
        Ok(_) => panic!("expected error"),
    };
    assert!(err.contains("Unknown provider type"));
    assert_eq!(err, "Unknown provider type: nonexistent");
}

#[test]
fn test_create_provider_local() {
    let cfg = config("local", Some("http://localhost:11434/v1"));
    let provider = create_provider(&cfg, None).unwrap();
    assert_eq!(plan_name(&provider), "local");
}

#[test]
fn test_create_provider_openai_compat() {
    let cfg = config("openai_compat", Some("https://api.openai.com/v1"));
    let provider = create_provider(&cfg, None).unwrap();
    assert_eq!(plan_name(&provider), "openai");
}

#[test]
fn create_provider_defaults_and_anthropic_key() {
    let p = create_provider(&config("ollama", None), None).unwrap();
    assert_eq!(p, ProviderPlan::Local { base_url: "http://localhost:11434/v1".into() });
    let p = create_provider(&config("openai_compat", None), None).unwrap();
    assert_eq!(
        p,
        ProviderPlan::OpenAiCompat { base_url: "https://api.openai.com/v1".into(), api_key: None, timeout_secs: 60 }
    );
    let err = create_provider(&config("anthropic", None), None).unwrap_err();
    assert_eq!(err, "Anthropic API key required");
    let mut cfg = config("anthropic", None);
    cfg.api_key_env = Some("ANTHROPIC_API_KEY".into());
    let p = create_provider(&cfg, Some("sk-ant".into())).unwrap();
    assert_eq!(p, ProviderPlan::Anthropic { api_key: "sk-ant".into() });
    assert_eq!(plan_name(&p), "anthropic");
}

#[test]
fn plan_chain_checks_every_fallback() {
    let mut cfg = config("openai_compat", None);
    let all = vec![("backup".to_string(), config("local", None))];
    assert_eq!(plan_chain(&cfg, &all), Ok(ChainPlan::Single));
    cfg.fallback_chain = Some(vec![]);
    assert_eq!(plan_chain(&cfg, &all), Ok(ChainPlan::Single));
    cfg.fallback_chain = Some(vec!["backup".into()]);
    cfg.default_model = Some("gpt-4o".into());
    assert_eq!(
        plan_chain(&cfg, &all),
        Ok(ChainPlan::Chain {
            name: "backup_chain".into(),
            primary_name: "gpt-4o".into(),
            fallbacks: vec!["backup".into()],
        })
    );
    cfg.fallback_chain = Some(vec!["backup".into(), "missing".into()]);
    assert_eq!(
        plan_chain(&cfg, &all),
        Err("Fallback provider 'missing' not found in config providers map".to_string())
    );
}

#[test]
fn test_registry_register_and_get() {
    let mut registry: ProviderRegistry<String> = ProviderRegistry::new();
    registry.register("test-provider", "http://localhost:11434/v1".to_string());

    let retrieved = registry.get("test-provider");
    assert!(retrieved.is_some());
    assert_eq!(retrieved.unwrap(), "http://localhost:11434/v1");
    assert_eq!(registry.list_names(), vec!["test-provider".to_string()]);
}

#[test]
fn test_registry_list_names() {
    let mut registry: ProviderRegistry<String> = ProviderRegistry::new();
    registry.register("p1", "http://localhost:8080".to_string());
    registry.register("p2", "http://localhost:8081".to_string());

    let names = registry.list_names();
    assert!(names.contains(&"p1".to_string()));
    assert!(names.contains(&"p2".to_string()));
    assert_eq!(names.len(), 2);
}

#[test]
fn registry_test_registry_remove() {
    let mut registry: ProviderRegistry<String> = ProviderRegistry::new();
    registry.register("temp", "http://localhost:8080".to_string());
    assert!(registry.get("temp").is_some());

    registry.remove("temp");
    assert!(registry.get("temp").is_none());
}

#[test]
fn registry_default_and_resolve() {
    let mut registry: ProviderRegistry<String> = ProviderRegistry::new();
    assert_eq!(registry.default(), Err("No providers registered".to_string()));
    assert_eq!(registry.resolve("main"), Err("No provider available".to_string()));
    registry.register("first", "a".to_string());
    registry.register("second", "b".to_string());
    assert_eq!(registry.default(), Ok(&"a".to_string()));
    registry.register("default", "c".to_string());
    assert_eq!(registry.default(), Ok(&"c".to_string()));
    assert_eq!(registry.resolve("second"), Ok(&"b".to_string()));
    assert_eq!(registry.resolve("nope"), Ok(&"c".to_string()));
    // Registering a name again replaces the provider in its place.
    registry.register("first", "z".to_string());
    assert_eq!(registry.list_names(), vec!["first".to_string(), "second".to_string(), "default".to_string()]);
    assert_eq!(registry.get("first"), Some(&"z".to_string()));
}
