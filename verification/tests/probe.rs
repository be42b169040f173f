use granite_cli::commands::provider::provider_setup_config;
use granite_cli::commands::provider::provider_setup_defaults;
use granite_cli::config::Config;
use granite_cli::config::ProviderConfig;
use granite_cli::config::ShellConfig;
use granite_cli::json::JsonValue;
use granite_cli::providers::probe::health_probe;

fn config_with(id: &str, provider_type: &str, cfg: JsonValue) -> Config {
    let mut c = Config::new(ShellConfig {
        shell: "bash".to_string(),
        export_file: "/home/user/.bashrc".to_string(),
        export_format: "export {VAR}=\"{VALUE}\"".to_string(),
    });
    c.insert_provider(
        id,
        ProviderConfig {
            provider_id: id.to_string(),
            provider_type: provider_type.to_string(),
            config: cfg,
            enabled: true,
        },
    );
    c
}

fn obj(members: Vec<(&str, JsonValue)>) -> JsonValue {
    JsonValue::Object(members.into_iter().map(|(k, v)| (k.to_string(), v)).collect())
}

#[test]
fn probe_uses_type_defaults_for_an_empty_config() {
    let c = config_with("local", "ollama", obj(vec![]));
    let p = health_probe(&c, "local").unwrap();
    assert_eq!(p.url, "http://localhost:11434/api/tags");
    assert_eq!(p.api_key, None);
    assert_eq!(p.timeout_secs, 10);
    assert!(p.verify_ssl);

    let c = config_with("cpp", "llamacpp", obj(vec![]));
    assert_eq!(health_probe(&c, "cpp").unwrap().url, "http://localhost:8080/health");
}

#[test]
fn probe_reads_configured_settings() {
    let c = config_with(
        "remote",
        "llamacpp",
        obj(vec![
            ("base_url", JsonValue::Str("http://gpu-box:9000".to_string())),
            ("api_key", JsonValue::Str("sk-abc".to_string())),
            ("timeout_secs", JsonValue::Number("3".to_string())),
            ("verify_ssl", JsonValue::Bool(false)),
            ("unrelated", JsonValue::Bool(true)),
        ]),
    );
    let p = health_probe(&c, "remote").unwrap();
    assert_eq!(p.url, "http://gpu-box:9000/health");
    assert_eq!(p.api_key.as_deref(), Some("sk-abc"));
    assert_eq!(p.timeout_secs, 3);
    assert!(!p.verify_ssl);
}

#[test]
fn probe_falls_back_to_all_defaults_on_a_mistyped_setting() {
    let c = config_with(
        "local",
        "ollama",
        obj(vec![
            ("base_url", JsonValue::Str("http://elsewhere:1".to_string())),
            ("timeout_secs", JsonValue::Str("ten".to_string())),
        ]),
    );
    let p = health_probe(&c, "local").unwrap();
    assert_eq!(p.url, "http://localhost:11434/api/tags");
    assert_eq!(p.timeout_secs, 10);
}

#[test]
fn probe_reports_a_missing_provider() {
    let c = config_with("local", "ollama", obj(vec![]));
    match health_probe(&c, "nope") {
        Ok(_) => panic!("nope is not configured"),
        Err(e) => assert_eq!(e, "Provider 'nope' not found in configuration"),
    }
}

#[test]
fn probe_reports_an_unknown_provider_type() {
    let c = config_with("x", "vllm", obj(vec![]));
    match health_probe(&c, "x") {
        Ok(_) => panic!("vllm cannot be constructed"),
        Err(e) => assert_eq!(e, "Failed to create provider: Unknown instance type: vllm"),
    }
}

#[test]
fn default_settings_hold_every_setting_at_its_default() {
    let v = granite_cli::providers::probe::default_provider_settings("llamacpp").unwrap();
    assert_eq!(v.get_str("base_url"), Some("http://localhost:8080"));
    assert_eq!(v.get_str("health_check_endpoint"), Some("/health"));
    assert!(matches!(v.get("api_key"), Some(JsonValue::Null)));
    assert!(matches!(v.get("verify_ssl"), Some(JsonValue::Bool(true))));
    assert!(granite_cli::providers::probe::default_provider_settings("vllm").is_none());
}

#[test]
fn default_settings_probe_the_type_default_url() {
    let v = granite_cli::providers::probe::default_provider_settings("ollama").unwrap();
    let c = config_with("local", "ollama", v);
    let p = health_probe(&c, "local").unwrap();
    assert_eq!(p.url, "http://localhost:11434/api/tags");
    assert_eq!(p.timeout_secs, 10);
    assert!(p.verify_ssl);
}

#[test]
fn provider_setup_config_builds_refuses_or_skips() {
    let registry = granite_cli::providers::catalog::provider_registry();
    let c = config_with("local", "ollama", obj(vec![("base_url", JsonValue::Str("http://box:1".to_string()))]));
    match provider_setup_config(&registry, &c, "vllm", None, true, obj(vec![])) {
        Err(e) => assert_eq!(e, "Provider type 'vllm' not found in registry."),
        Ok(_) => panic!("vllm is not a provider type"),
    }
    assert!(matches!(provider_setup_config(&registry, &c, "ollama", Some("local"), false, obj(vec![])), Ok(None)));
    let defaults = provider_setup_defaults(&c, "ollama", "local");
    assert_eq!(defaults.get_str("base_url"), Some("http://box:1"));
    let kept = provider_setup_config(&registry, &c, "ollama", Some("local"), true, defaults).unwrap().unwrap();
    assert_eq!(kept.config.get_str("base_url"), Some("http://box:1"));
    let fresh_defaults = provider_setup_defaults(&c, "llamacpp", "llamacpp");
    assert_eq!(fresh_defaults.get_str("base_url"), Some("http://localhost:8080"));
    let fresh = provider_setup_config(&registry, &c, "llamacpp", None, false, fresh_defaults).unwrap().unwrap();
    assert_eq!(fresh.provider_id, "llamacpp");
    assert_eq!(fresh.config.get_str("base_url"), Some("http://localhost:8080"));
    assert!(fresh.enabled);
    match provider_setup_config(&registry, &c, "openai-compatible", None, true, obj(vec![])) {
        Err(e) => assert_eq!(e, "No config schema registered for provider type 'openai-compatible'"),
        Ok(_) => panic!("no default settings for openai-compatible"),
    }
}

#[test]
fn provider_setup_stores_the_answered_settings() {
    let registry = granite_cli::providers::catalog::provider_registry();
    let c = config_with("local", "ollama", obj(vec![]));
    let answers = obj(vec![("base_url", JsonValue::Str("http://gpu-box:11434".to_string()))]);
    let pc = provider_setup_config(&registry, &c, "ollama", Some("remote"), false, answers).unwrap().unwrap();
    assert_eq!(pc.provider_id, "remote");
    assert_eq!(pc.config.get_str("base_url"), Some("http://gpu-box:11434"));
}
