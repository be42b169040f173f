use granite_cli::capabilities::AgentModelCapability;
use granite_cli::capabilities::CapabilityMetadata;
use granite_cli::commands::wizard::capability_types_message;
use granite_cli::commands::wizard::health_detail;
use granite_cli::commands::wizard::health_targets;
use granite_cli::commands::wizard::normalize_command_path;
use granite_cli::commands::wizard::pick_dependency;
use granite_cli::commands::wizard::provider_types_message;
use granite_cli::commands::wizard::same_type_instances;
use granite_cli::commands::wizard::Pick;
use granite_cli::config::Config;
use granite_cli::config::LauncherConfig;
use granite_cli::config::ProviderConfig;
use granite_cli::config::ShellConfig;
use granite_cli::json::JsonValue;
use granite_cli::providers::HealthStatus;
use granite_cli::providers::ProviderMetadata;
use granite_cli::providers::ProviderType;
use granite_cli::registry::Factory;

fn empty_config() -> Config {
    Config::new(ShellConfig {
        shell: "bash".to_string(),
        export_file: "/home/user/.bashrc".to_string(),
        export_format: "export {VAR}=\"{VALUE}\"".to_string(),
    })
}

fn add_launcher(config: &mut Config, id: &str, t: &str) {
    let mut l = LauncherConfig::default();
    l.launcher_id = id.to_string();
    l.launcher_type = t.to_string();
    config.insert_launcher(id, l);
}

#[test]
fn setup_warns_on_same_type_existing_instance() {
    let mut config = empty_config();
    add_launcher(&mut config, "goose-old", "goose");
    add_launcher(&mut config, "my-bob", "bob");
    assert_eq!(same_type_instances(&config, "goose", "goose-new"), vec!["goose-old".to_string()]);
    assert!(same_type_instances(&config, "goose", "goose-old").is_empty());
    assert!(same_type_instances(&config, "hermes", "x").is_empty());
}

#[test]
fn an_empty_command_path_is_cleared() {
    let cfg = JsonValue::Object(vec![
        ("command_path".to_string(), JsonValue::Str(String::new())),
        ("other".to_string(), JsonValue::Bool(true)),
    ]);
    match normalize_command_path(cfg) {
        JsonValue::Object(ms) => {
            assert!(matches!(ms[0], (ref k, JsonValue::Null) if k == "command_path"));
            assert_eq!(ms.len(), 2);
        },
        _ => panic!("expected an object"),
    }
    let set = JsonValue::Object(vec![("command_path".to_string(), JsonValue::Str("/bin/bob".to_string()))]);
    assert_eq!(normalize_command_path(set).get_str("command_path"), Some("/bin/bob"));
}

#[test]
fn dependencies_are_picked_or_refused() {
    let err = pick_dependency(&vec![], true, "model").err().unwrap();
    assert_eq!(err, "No configured model satisfies this capability's requirements yet. Configure one first.");
    assert!(matches!(pick_dependency(&vec![], false, "model"), Ok(Pick::Unset)));
    match pick_dependency(&vec!["m1".to_string()], true, "model") {
        Ok(Pick::Chosen(c)) => assert_eq!(c, "m1"),
        _ => panic!("expected the sole candidate"),
    }
    assert!(matches!(pick_dependency(&vec!["a".to_string(), "b".to_string()], true, "provider"), Ok(Pick::Ask)));
}

#[test]
fn health_covers_the_named_or_every_provider() {
    let mut config = empty_config();
    let mut p = ProviderConfig::default();
    p.provider_id = "local".to_string();
    config.insert_provider("local", p);
    assert_eq!(health_targets(&config, Some("x")), vec!["x".to_string()]);
    assert_eq!(health_targets(&config, None), vec!["local".to_string()]);
    assert!(health_targets(&empty_config(), None).is_empty());
}

#[test]
fn health_detail_shows_latency_and_error() {
    let ok = HealthStatus { healthy: true, latency_ms: 12, error: None };
    assert_eq!(health_detail(&ok), "12ms");
    let bad = HealthStatus { healthy: false, latency_ms: 7, error: Some("refused".to_string()) };
    assert_eq!(health_detail(&bad), "7 — refused");
}

#[test]
fn type_lists_name_id_and_name() {
    let mut caps: Factory<CapabilityMetadata> = Factory::new();
    caps.register("zeta", AgentModelCapability::metadata());
    caps.register("alpha", AgentModelCapability::metadata());
    assert_eq!(
        capability_types_message(&caps),
        "Available types: alpha (Agent Model Binding), zeta (Agent Model Binding)"
    );
    let mut providers: Factory<ProviderMetadata> = Factory::new();
    providers.register(
        "ollama",
        ProviderMetadata {
            id: "ollama".to_string(),
            name: "Ollama".to_string(),
            description: String::new(),
            provider_type: ProviderType::Local,
            default_endpoint: String::new(),
            api_capabilities: vec![],
            supported_formats: vec![],
            supported_precisions: vec![],
            authentication: vec![],
            tags: vec![],
        },
    );
    assert_eq!(provider_types_message(&providers), "Available provider types: ollama (Ollama)");
}
