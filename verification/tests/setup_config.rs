use granite_cli::capabilities::catalog::capability_types;
use granite_cli::capabilities::CapabilityMetadata;
use granite_cli::capabilities::Dependency;
use granite_cli::commands::setup_config::capability_setup_config;
use granite_cli::commands::setup_config::dependency_candidates;
use granite_cli::commands::setup_config::launcher_setup_config;
use granite_cli::commands::setup_config::launcher_setup_target;
use granite_cli::config::CapabilityConfig;
use granite_cli::config::Config;
use granite_cli::config::LauncherConfig;
use granite_cli::config::ModelConfig;
use granite_cli::config::ProviderConfig;
use granite_cli::config::ShellConfig;
use granite_cli::json::JsonValue;
use granite_cli::launchers::catalog::launcher_registry;
use granite_cli::commands::setup_config::capability_setup_defaults;
use granite_cli::models::model_registry;
use granite_cli::models::ModelFunction;
use granite_cli::registry::Factory;

fn empty_config() -> Config {
    Config::new(ShellConfig {
        shell: "bash".to_string(),
        export_file: "/home/user/.bashrc".to_string(),
        export_format: "export {VAR}=\"{VALUE}\"".to_string(),
    })
}

fn obj(members: Vec<(&str, JsonValue)>) -> JsonValue {
    JsonValue::Object(members.into_iter().map(|(k, v)| (k.to_string(), v)).collect())
}

#[test]
fn launcher_setup_config_normalises_and_validates() {
    let launchers = launcher_registry();
    let c = empty_config();
    let settings = obj(vec![("command_path", JsonValue::Str(String::new()))]);
    let lc = launcher_setup_config(&c, &launchers, "goose", "g1", false, settings, Ok(())).unwrap().unwrap();
    assert_eq!(lc.launcher_id, "g1");
    assert_eq!(lc.launcher_type, "goose");
    assert!(lc.enabled_capabilities.is_empty());
    assert!(matches!(lc.config.get("command_path"), Some(JsonValue::Null)));
    match launcher_setup_config(&c, &launchers, "goose", "g1", false, obj(vec![]), Err("goose not found".to_string())) {
        Err(e) => assert_eq!(
            e,
            "Binary validation failed: goose not found\nSet command_path to the full path of the binary and re-run setup."
        ),
        Ok(_) => panic!("expected a refusal"),
    }
    match launcher_setup_config(&c, &launchers, "nope", "x", false, obj(vec![]), Ok(())) {
        Err(e) => assert_eq!(e, "Launcher type 'nope' not found in registry."),
        Ok(_) => panic!("expected a refusal"),
    }
}

#[test]
fn launcher_setup_skips_an_existing_instance_unless_overwritten() {
    let launchers = launcher_registry();
    let mut c = empty_config();
    let mut l = LauncherConfig::default();
    l.launcher_id = "g1".to_string();
    l.launcher_type = "goose".to_string();
    c.insert_launcher("g1", l);
    assert!(matches!(launcher_setup_config(&c, &launchers, "goose", "g1", false, obj(vec![]), Ok(())), Ok(None)));
    assert!(matches!(launcher_setup_config(&c, &launchers, "goose", "g1", true, obj(vec![]), Ok(())), Ok(Some(_))));
    let same = vec!["g1".to_string()];
    assert_eq!(launcher_setup_target(&same, "g2", true), "g1");
    assert_eq!(launcher_setup_target(&same, "g2", false), "g2");
    assert_eq!(launcher_setup_target(&vec![], "g2", true), "g2");
}

#[test]
fn dependency_candidates_exclude_models_without_a_configured_provider() {
    let mut c = empty_config();
    c.insert_provider(
        "local",
        ProviderConfig {
            provider_id: "local".to_string(),
            provider_type: "ollama".to_string(),
            config: obj(vec![]),
            enabled: true,
        },
    );
    for (id, provider) in [("a", Some("local")), ("b", None), ("c", Some("gone"))] {
        c.insert_model(
            id,
            ModelConfig { model_id: "granite".to_string(), provider_id: provider.map(|p| p.to_string()), variant: None, enabled: true },
        );
    }
    let catalog = model_registry();
    let models = dependency_candidates(&c, &catalog, &Dependency::Model { id: "granite".to_string(), required: true });
    assert_eq!(models, vec!["a".to_string()]);
    let providers = dependency_candidates(&c, &catalog, &Dependency::Provider { id: "ollama".to_string(), required: true });
    assert_eq!(providers, vec!["local".to_string()]);
    let tools = dependency_candidates(&c, &catalog, &Dependency::ExternalTool { name: "x".to_string(), check_command: "x".to_string() });
    assert!(tools.is_empty());
}

fn with_provider(mut c: Config) -> Config {
    c.insert_provider(
        "ollama",
        ProviderConfig { provider_id: "ollama".to_string(), provider_type: "ollama".to_string(), config: obj(vec![]), enabled: true },
    );
    c
}

fn with_model(mut c: Config, id: &str, model_id: &str, provider: Option<&str>) -> Config {
    c.insert_model(
        id,
        ModelConfig { model_id: model_id.to_string(), provider_id: provider.map(|p| p.to_string()), variant: None, enabled: true },
    );
    c
}

fn chat_and_tools() -> Dependency {
    Dependency::ModelFor {
        config_key: "model_id".to_string(),
        functions: vec![ModelFunction::Chat, ModelFunction::ToolCalling],
        required: true,
    }
}

#[test]
fn described_model_dependency_takes_supporting_models_with_a_provider() {
    let c = with_model(with_provider(empty_config()), "chat8b", "granite-3.1-8b-instruct", Some("ollama"));
    let c = with_model(c, "bare", "granite-3.1-3b-instruct", None);
    let c = with_model(c, "guard", "granite-guardian-3.1-8b", Some("ollama"));
    let c = with_model(c, "unknown", "not-in-catalog", Some("ollama"));
    let got = dependency_candidates(&c, &model_registry(), &chat_and_tools());
    assert_eq!(got, vec!["chat8b".to_string()]);
}

#[test]
fn setup_agent_model_persists_config() {
    let c = with_model(with_provider(empty_config()), "granite-3.1-8b-instruct", "granite-3.1-8b-instruct", Some("ollama"));
    let answers = capability_setup_defaults(&c, "agent-model", "chat");
    let cc = capability_setup_config(&c, &capability_types(), &model_registry(), "agent-model", "chat", false, answers, &vec![0])
        .unwrap()
        .unwrap();
    assert_eq!(cc.capability_id, "chat");
    assert_eq!(cc.capability_type, "agent-model");
    assert_eq!(cc.config.get("model_id").and_then(|v| v.as_str()), Some("granite-3.1-8b-instruct"));
}

#[test]
fn setup_agent_model_fails_when_no_model_configured() {
    let c = empty_config();
    let answers = capability_setup_defaults(&c, "agent-model", "chat");
    match capability_setup_config(&c, &capability_types(), &model_registry(), "agent-model", "chat", false, answers, &vec![0]) {
        Err(e) => assert!(e.contains("No configured model satisfies")),
        Ok(_) => panic!("a required model dependency without candidates refuses the setup"),
    }
}

#[test]
fn setup_agent_model_excludes_providerless_model() {
    let c = with_model(empty_config(), "granite-3.1-8b-instruct", "granite-3.1-8b-instruct", None);
    let answers = capability_setup_defaults(&c, "agent-model", "chat");
    let r = capability_setup_config(&c, &capability_types(), &model_registry(), "agent-model", "chat", false, answers, &vec![0]);
    assert!(r.is_err());
}

#[test]
fn several_candidates_are_chosen_between() {
    let c = with_model(with_provider(empty_config()), "first", "granite-3.1-8b-instruct", Some("ollama"));
    let c = with_model(c, "second", "granite-3.1-20b-instruct", Some("ollama"));
    let answers = obj(vec![("model_id", JsonValue::Str(String::new())), ("style", JsonValue::Bool(true))]);
    let cc = capability_setup_config(&c, &capability_types(), &model_registry(), "agent-model", "chat", false, answers, &vec![1])
        .unwrap()
        .unwrap();
    assert_eq!(cc.config.get_str("model_id"), Some("second"));
    assert!(matches!(cc.config.get("style"), Some(JsonValue::Bool(true))));
}

#[test]
fn setup_defaults_come_from_the_instance_then_the_type() {
    let c = empty_config();
    let d = capability_setup_defaults(&c, "agent-model", "chat");
    assert_eq!(d.get_str("model_id"), Some(""));
    assert!(matches!(capability_setup_defaults(&c, "other", "x"), JsonValue::Object(m) if m.is_empty()));
    let mut c = empty_config();
    c.insert_capability(
        "chat",
        CapabilityConfig {
            capability_id: "chat".to_string(),
            capability_type: "agent-model".to_string(),
            enabled: true,
            config: obj(vec![("model_id", JsonValue::Str("kept".to_string()))]),
        },
    );
    assert_eq!(capability_setup_defaults(&c, "agent-model", "chat").get_str("model_id"), Some("kept"));
}

#[test]
fn capability_setup_refuses_an_unknown_type() {
    let c = empty_config();
    match capability_setup_config(&c, &capability_types(), &model_registry(), "nope", "x", false, obj(vec![]), &vec![]) {
        Err(e) => assert_eq!(e, "Capability type 'nope' not found in registry."),
        Ok(_) => panic!("expected a refusal"),
    }
}

#[test]
fn capability_setup_skips_an_existing_instance_unless_overwritten() {
    let types = capability_types();
    let mut c = empty_config();
    c.insert_capability(
        "chat",
        CapabilityConfig { capability_id: "chat".to_string(), capability_type: "agent-model".to_string(), enabled: true, config: obj(vec![]) },
    );
    assert!(matches!(
        capability_setup_config(&c, &types, &model_registry(), "agent-model", "chat", false, obj(vec![]), &vec![0]),
        Ok(None)
    ));
    let mut f: Factory<CapabilityMetadata> = Factory::new();
    f.register(
        "tooling",
        CapabilityMetadata {
            name: "Tooling".to_string(),
            description: String::new(),
            dependencies: vec![],
            tags: vec![],
            binding_types: vec![],
        },
    );
    assert!(matches!(
        capability_setup_config(&c, &f, &model_registry(), "tooling", "t", false, JsonValue::Null, &vec![]),
        Err(e) if e == "Capability settings must be a JSON object"
    ));
}
