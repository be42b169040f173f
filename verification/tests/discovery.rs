use granite_cli::capabilities::AgentModelCapability;
use granite_cli::capabilities::BindingType;
use granite_cli::capabilities::CapabilityMetadata;
use granite_cli::commands::discovery::configured_types;
use granite_cli::commands::discovery::discover_capabilities;
use granite_cli::commands::discovery::discover_launchers;
use granite_cli::commands::discovery::discover_providers;
use granite_cli::commands::discovery::display_name;
use granite_cli::commands::discovery::sort_by_name;
use granite_cli::commands::discovery::unconfigured_types;
use granite_cli::commands::discovery::ProbeOutcome;
use granite_cli::commands::discovery::Recommendation;
use granite_cli::commands::discovery::Revaluator;
use granite_cli::launchers::catalog::launcher_registry;
use granite_cli::models::model_registry;
use granite_cli::models::ContextFit;
use granite_cli::models::ModelType;
use granite_cli::models::ModelVariant;
use granite_cli::providers::ProviderMetadata;
use granite_cli::providers::ProviderType;
use granite_cli::registry::Factory;
use granite_cli::strmap::StrMap;

fn capability_catalog() -> Factory<CapabilityMetadata> {
    let mut f = Factory::new();
    f.register("agent-model", AgentModelCapability::metadata());
    f.register(
        "docs",
        CapabilityMetadata {
            name: "Document Conversion".to_string(),
            description: String::new(),
            dependencies: vec![],
            tags: vec![],
            binding_types: vec![BindingType::Mcp],
        },
    );
    f
}

fn provider_metadata(id: &str, name: &str) -> ProviderMetadata {
    ProviderMetadata {
        id: id.to_string(),
        name: name.to_string(),
        description: String::new(),
        provider_type: ProviderType::Local,
        default_endpoint: "http://localhost".to_string(),
        api_capabilities: vec![],
        supported_formats: vec![],
        supported_precisions: vec![],
        authentication: vec![],
        tags: vec![],
    }
}

fn provider_catalog() -> Factory<ProviderMetadata> {
    let mut f = Factory::new();
    f.register("ollama", provider_metadata("ollama", "Ollama"));
    f.register("llamacpp", provider_metadata("llamacpp", "llama.cpp"));
    f
}

fn names(recs: &[Recommendation]) -> Vec<String> {
    recs.iter().map(display_name).collect()
}

fn names_of(recs: &[&Recommendation]) -> Vec<String> {
    recs.iter().map(|r| display_name(r)).collect()
}

fn launcher_rec(t: &str, name: &str) -> Recommendation {
    Recommendation::Launcher { launcher_type: t.to_string(), launcher_name: name.to_string(), binary_path: None }
}

fn capability_rec(t: &str, name: &str) -> Recommendation {
    Recommendation::Capability { capability_type: t.to_string(), capability_name: name.to_string() }
}

fn provider_rec(t: &str) -> Recommendation {
    Recommendation::Provider {
        provider_type: t.to_string(),
        provider_name: t.to_string(),
        health_healthy: true,
        health_error: None,
    }
}

fn model_rec(id: &str, runners: &[&str]) -> Recommendation {
    Recommendation::Model {
        model_id: id.to_string(),
        family: "Granite".to_string(),
        version: "3.1".to_string(),
        size: "8B".to_string(),
        model_type: ModelType::Text,
        best_variant: ModelVariant {
            format: "GGUF".to_string(),
            precision: "Q4_K_M".to_string(),
            size_decigb: 49,
            url: String::new(),
        },
        context_fit: ContextFit::Full,
        can_run_by: runners.iter().map(|r| r.to_string()).collect(),
    }
}

#[test]
fn model_display_name_joins_family_version_and_size() {
    assert_eq!(display_name(&model_rec("m", &[])), "Granite 3.1 8B");
}

#[test]
fn sort_by_name_orders_and_keeps_equal_names_in_order() {
    let recs = vec![
        launcher_rec("b", "Zed"),
        launcher_rec("first", "Alpha"),
        launcher_rec("second", "Alpha"),
        launcher_rec("c", "Beta"),
    ];
    let sorted = sort_by_name(recs);
    assert_eq!(names(&sorted), vec!["Alpha", "Alpha", "Beta", "Zed"]);
    match (&sorted[0], &sorted[1]) {
        (
            Recommendation::Launcher { launcher_type: a, .. },
            Recommendation::Launcher { launcher_type: b, .. },
        ) => {
            assert_eq!(a, "first");
            assert_eq!(b, "second");
        },
        _ => panic!("expected launchers"),
    }
}

#[test]
fn discover_capabilities_recommends_unconfigured() {
    let mut configured: StrMap<()> = StrMap::new();
    configured.insert("docs".to_string(), ());
    let (recs, ids) = discover_capabilities(&capability_catalog(), &configured);
    assert_eq!(names(&recs), vec!["Agent Model Binding"]);
    assert_eq!(ids, vec!["docs".to_string()]);
}

#[test]
fn discover_providers_skips_configured() {
    let mut configured: StrMap<()> = StrMap::new();
    configured.insert("ollama".to_string(), ());
    let to_probe = unconfigured_types(&provider_catalog(), &configured);
    assert_eq!(to_probe, vec!["llamacpp".to_string()]);
    let mut outcomes = StrMap::new();
    outcomes.insert("llamacpp".to_string(), ProbeOutcome::CheckFailed("connection refused".to_string()));
    let (recs, configured_ids) = discover_providers(&provider_catalog(), &configured, &outcomes);
    assert_eq!(configured_ids, vec!["ollama".to_string()]);
    assert_eq!(recs.len(), 1);
    match &recs[0] {
        Recommendation::Provider { provider_type, health_healthy, health_error, .. } => {
            assert_eq!(provider_type, "llamacpp");
            assert!(!health_healthy);
            assert_eq!(health_error.as_deref(), Some("Health check failed: connection refused"));
        },
        _ => panic!("expected a provider"),
    }
}

#[test]
fn discover_providers_recommends_unconfigured() {
    let configured: StrMap<()> = StrMap::new();
    let mut outcomes = StrMap::new();
    outcomes.insert("ollama".to_string(), ProbeOutcome::Checked { healthy: true, error: None });
    outcomes.insert("llamacpp".to_string(), ProbeOutcome::NotConstructed);
    let (recs, configured_ids) = discover_providers(&provider_catalog(), &configured, &outcomes);
    assert!(configured_ids.is_empty());
    assert_eq!(recs.len(), 2);
    for r in &recs {
        match r {
            Recommendation::Provider { provider_type, health_healthy, health_error, .. } => {
                if provider_type == "ollama" {
                    assert!(*health_healthy);
                    assert!(health_error.is_none());
                } else {
                    assert_eq!(health_error.as_deref(), Some("Could not construct provider with default config"));
                }
            },
            _ => panic!("expected providers"),
        }
    }
}

#[test]
fn discover_launchers_recommends_unconfigured() {
    let launchers = launcher_registry();
    let mut configured: StrMap<()> = StrMap::new();
    configured.insert("goose".to_string(), ());
    configured.insert("hermes".to_string(), ());
    let mut binaries = StrMap::new();
    for t in unconfigured_types(&launchers, &configured) {
        let path = if t == "bob" { Some("/usr/bin/bob".to_string()) } else { None };
        binaries.insert(t, path);
    }
    let (recs, configured_ids) = discover_launchers(&launchers, &configured, &binaries);
    assert_eq!(configured_ids, vec!["goose".to_string(), "hermes".to_string()]);
    assert_eq!(names(&recs), vec!["Bob CLI", "OpenClaw CLI", "OpenCode CLI"]);
    match &recs[0] {
        Recommendation::Launcher { binary_path, .. } => assert_eq!(binary_path.as_deref(), Some("/usr/bin/bob")),
        _ => panic!("expected a launcher"),
    }
}

#[test]
fn configured_types_are_sorted() {
    let mut configured: StrMap<()> = StrMap::new();
    configured.insert("opencode".to_string(), ());
    configured.insert("bob".to_string(), ());
    configured.insert("not-a-launcher".to_string(), ());
    assert_eq!(configured_types(&launcher_registry(), &configured), vec!["bob".to_string(), "opencode".to_string()]);
}

#[test]
fn revaluator_for_launchers_filters_by_binding_types() {
    let recs = vec![
        launcher_rec("bob", "Bob CLI"),
        launcher_rec("goose", "Goose CLI"),
        launcher_rec("unknown", "Mystery"),
        capability_rec("agent-model", "Agent Model Binding"),
    ];
    let selected = vec!["agent-model".to_string()];
    let kept = Revaluator::for_launchers(&recs, &selected, &capability_catalog(), &launcher_registry());
    assert_eq!(names_of(&kept), vec!["Goose CLI", "Mystery"]);
}

#[test]
fn revaluator_for_launchers_without_needs_keeps_every_launcher() {
    let recs = vec![launcher_rec("bob", "Bob CLI"), capability_rec("x", "X"), launcher_rec("goose", "Goose CLI")];
    let kept = Revaluator::for_launchers(&recs, &vec![], &capability_catalog(), &launcher_registry());
    assert_eq!(kept.len(), 2);
}

#[test]
fn revaluator_for_capabilities_filters_by_selected_launchers() {
    let recs = vec![
        capability_rec("agent-model", "Agent Model Binding"),
        capability_rec("docs", "Document Conversion"),
        capability_rec("custom", "Custom"),
        launcher_rec("goose", "Goose CLI"),
    ];
    let kept = Revaluator::for_capabilities(&recs, &vec!["goose".to_string()], &capability_catalog(), &launcher_registry());
    assert_eq!(names_of(&kept), vec!["Agent Model Binding", "Custom"]);
}

#[test]
fn revaluator_for_capabilities_with_no_launchers_returns_none() {
    let recs = vec![capability_rec("agent-model", "Agent Model Binding")];
    let kept = Revaluator::for_capabilities(&recs, &vec![], &capability_catalog(), &launcher_registry());
    assert!(kept.is_empty());
}

#[test]
fn revaluator_for_providers_keeps_those_running_selected_models() {
    let recs = vec![
        provider_rec("ollama"),
        provider_rec("llamacpp"),
        model_rec("granite-a", &["llamacpp"]),
        model_rec("granite-b", &["ollama"]),
    ];
    let kept = Revaluator::for_providers(&recs, &vec!["granite-a".to_string()]);
    assert_eq!(names_of(&kept), vec!["llamacpp"]);
    let all = Revaluator::for_providers(&recs, &vec![]);
    assert_eq!(all.len(), 2);
    let unknown = Revaluator::for_providers(&recs, &vec!["granite-c".to_string()]);
    assert_eq!(unknown.len(), 2);
}


fn strings(v: &[&str]) -> Vec<String> {
    v.iter().map(|s| s.to_string()).collect()
}

#[test]
fn revaluator_for_models_keeps_the_models_capabilities_depend_on() {
    let mut caps = capability_catalog();
    caps.register(
        "vision",
        CapabilityMetadata {
            name: "Visual Analysis".to_string(),
            description: String::new(),
            dependencies: vec![granite_cli::capabilities::Dependency::Model { id: "granite-vision-3.1-8b".to_string(), required: true }],
            tags: vec![],
            binding_types: vec![BindingType::AgentModel],
        },
    );
    let catalog = model_registry();
    let recs = vec![
        model_rec("granite-3.1-8b-instruct", &["ollama"]),
        model_rec("granite-vision-3.1-8b", &["ollama"]),
        provider_rec("ollama"),
    ];
    let kept = Revaluator::for_models(&recs, &strings(&["vision"]), &caps, &catalog);
    assert_eq!(kept.len(), 1);
    assert!(matches!(kept[0], Recommendation::Model { model_id, .. } if model_id == "granite-vision-3.1-8b"));
    let all = Revaluator::for_models(&recs, &strings(&["docs"]), &caps, &catalog);
    assert_eq!(all.len(), 2);
}

#[test]
fn revaluator_for_models_filters_by_capability_requirements() {
    let caps = capability_catalog();
    let catalog = model_registry();
    let recs = vec![
        model_rec("granite-3.1-8b-instruct", &["ollama"]),
        model_rec("granite-vision-3.1-8b", &["ollama"]),
        model_rec("granite-guardian-3.1-8b", &["ollama"]),
    ];
    let kept = Revaluator::for_models(&recs, &strings(&["agent-model"]), &caps, &catalog);
    assert!(!kept.is_empty());
    for r in &kept {
        if let Recommendation::Model { model_id, .. } = r {
            let md = catalog.get(model_id).expect("real catalog entry");
            assert!(md.supported_functions.contains(&granite_cli::models::ModelFunction::Chat), "{model_id} should support Chat");
        }
    }
}

#[test]
fn revaluator_for_models_with_no_requirements_returns_all() {
    let caps = capability_catalog();
    let recs = vec![model_rec("granite-3.1-8b-instruct", &["ollama"]), model_rec("anything", &[]), provider_rec("ollama")];
    assert_eq!(Revaluator::for_models(&recs, &strings(&["docs"]), &caps, &model_registry()).len(), 2);
}

#[test]
fn auto_selection_follows_launchers_to_providers() {
    let caps = capability_catalog();
    let launchers = launcher_registry();
    let recs = vec![
        Recommendation::Launcher { launcher_type: "goose".to_string(), launcher_name: "Goose CLI".to_string(), binary_path: Some("/usr/bin/goose".to_string()) },
        launcher_rec("hermes", "Hermes CLI"),
        capability_rec("agent-model", "Agent Model Binding"),
        model_rec("granite-3.1-8b-instruct", &["ollama"]),
        provider_rec("ollama"),
        Recommendation::Provider { provider_type: "llamacpp".to_string(), provider_name: "llama.cpp".to_string(), health_healthy: false, health_error: Some("down".to_string()) },
    ];
    let s = granite_cli::commands::discovery::auto_selection(&recs, &caps, &launchers, &model_registry());
    assert_eq!(s.launchers, strings(&["goose"]));
    assert_eq!(s.capabilities, strings(&["agent-model"]));
    assert_eq!(s.models, strings(&["granite-3.1-8b-instruct"]));
    assert_eq!(s.providers, strings(&["ollama"]));
}

#[test]
fn configure_all_writes_an_instance_per_selection() {
    let caps = capability_catalog();
    let mut config = granite_cli::config::Config::new(granite_cli::config::ShellConfig {
        shell: "bash".to_string(),
        export_file: "/tmp/rc".to_string(),
        export_format: "export {VAR}=\"{VALUE}\"".to_string(),
    });
    let recs = vec![model_rec("granite-8b", &["llamacpp"])];
    let sel = granite_cli::commands::discovery::Selection {
        launchers: strings(&["hermes"]),
        capabilities: strings(&["agent-model"]),
        models: strings(&["granite-8b", "granite-2b", "granite-3.1-8b-instruct"]),
        providers: strings(&["ollama", "llamacpp"]),
    };
    granite_cli::commands::configure::configure_all(&mut config, &sel, &recs, &caps, &model_registry());
    let p = config.get_provider("ollama").unwrap();
    assert_eq!(p.provider_type, "ollama");
    assert_eq!(p.config.get_str("base_url"), Some("http://localhost:11434"));
    let l = config.get_launcher("hermes").unwrap();
    assert!(matches!(l.config.get("model_overrides"), Some(granite_cli::json::JsonValue::Null)));
    assert_eq!(config.get_model("granite-8b").unwrap().provider_id.as_deref(), Some("llamacpp"));
    assert_eq!(config.get_model("granite-2b").unwrap().provider_id.as_deref(), Some("ollama"));
    let cap = config.get_capability("agent-model").unwrap();
    assert_eq!(cap.config.get_str("model_id"), Some("granite-3.1-8b-instruct"));
}
