use granite_cli::capabilities::Dependency;
use granite_cli::config::Config;
use granite_cli::config::ProviderConfig;
use granite_cli::config::ShellConfig;
use granite_cli::di::graph::DependencyGraph;
use granite_cli::di::resolver::check_dependency;
use granite_cli::di::resolver::dependency_debug_text;
use granite_cli::di::resolver::resolve_capability_deps;
use granite_cli::di::resolver::split_whitespace;
use granite_cli::di::resolver::tool_invocation;
use granite_cli::di::resolver::validate_dependencies;
use granite_cli::di::resolver::DependencyStatus;
use granite_cli::models::model_registry;
use granite_cli::models::ModelFunction;
use granite_cli::registry::CapabilityDefinition;
use granite_cli::registry::CapabilityRegistry;
use granite_cli::strmap::StrMap;

#[derive(Debug)]
enum ShownAs {
    Model { id: String, required: bool },
    ModelFor { config_key: String, functions: Vec<ModelFunction>, required: bool },
}

fn empty_config() -> Config {
    Config::new(ShellConfig {
        shell: "bash".to_string(),
        export_file: "/home/user/.bashrc".to_string(),
        export_format: "export {VAR}=\"{VALUE}\"".to_string(),
    })
}

fn cap(id: &str, deps: Vec<Dependency>) -> CapabilityDefinition {
    CapabilityDefinition {
        id: id.to_string(),
        name: id.to_string(),
        description: String::new(),
        version: "0.1.0".to_string(),
        dependencies: deps,
        hooks: vec![],
        tags: vec![],
    }
}

fn missing_of(s: DependencyStatus) -> Option<String> {
    match s {
        DependencyStatus::Satisfied => None,
        DependencyStatus::Missing(m) => Some(m),
    }
}

#[test]
fn words_are_split_on_any_whitespace() {
    assert_eq!(split_whitespace("  python -c\t\"import docling\"\n"), vec!["python", "-c", "\"import", "docling\""]);
    assert!(split_whitespace(" \t ").is_empty());
}

#[test]
fn a_check_command_is_a_program_and_its_arguments() {
    let (program, args) = tool_invocation("mellea --version").unwrap();
    assert_eq!(program, "mellea");
    assert_eq!(args, vec!["--version".to_string()]);
    assert!(tool_invocation("   ").is_none());
}

#[test]
fn dependencies_are_shown_as_debug_prints_them() {
    let d = Dependency::Model { id: "granite \"x\"\n".to_string(), required: true };
    let derived = ShownAs::Model { id: "granite \"x\"\n".to_string(), required: true };
    assert_eq!(dependency_debug_text(&d), format!("{:?}", derived));
    let t = Dependency::ExternalTool { name: "docling".to_string(), check_command: "docling --help".to_string() };
    assert_eq!(dependency_debug_text(&t), "ExternalTool { name: \"docling\", check_command: \"docling --help\" }");
}

#[test]
fn each_kind_of_dependency_is_checked() {
    let mut config = empty_config();
    let mut p = ProviderConfig::default();
    p.provider_id = "ollama".to_string();
    config.insert_provider("ollama", p);
    let models = model_registry();
    let caps = CapabilityRegistry::bundled_capabilities();
    let mut tools = StrMap::new();
    tools.insert("docling --version".to_string(), true);
    tools.insert("mellea --version".to_string(), false);

    let check = |d: Dependency| missing_of(check_dependency(&d, &config, &models, &caps, &tools));
    assert_eq!(check(Dependency::Model { id: "granite-3.1-8b-instruct".to_string(), required: true }), None);
    assert_eq!(
        check(Dependency::Model { id: "nope".to_string(), required: true }),
        Some("Model 'nope' not available".to_string())
    );
    assert_eq!(check(Dependency::Provider { id: "ollama".to_string(), required: true }), None);
    assert_eq!(
        check(Dependency::Provider { id: "vllm".to_string(), required: false }),
        Some("Provider 'vllm' not configured".to_string())
    );
    assert_eq!(
        check(Dependency::ExternalTool { name: "docling".to_string(), check_command: "docling --version".to_string() }),
        None
    );
    assert_eq!(
        check(Dependency::ExternalTool { name: "mellea".to_string(), check_command: "mellea --version".to_string() }),
        Some("External tool 'mellea' not found (mellea --version)".to_string())
    );
    assert_eq!(check(Dependency::Capability { id: "vision".to_string(), required: true }), None);
    assert_eq!(
        check(Dependency::Capability { id: "ghost".to_string(), required: true }),
        Some("Capability 'ghost' not available".to_string())
    );
}

#[test]
fn validation_splits_the_order_into_resolved_and_unresolved() {
    let catalog = vec![
        cap("app", vec![Dependency::Capability { id: "db".to_string(), required: true }]),
        cap("db", vec![Dependency::Provider { id: "postgres".to_string(), required: true }]),
    ];
    let order = vec!["db".to_string(), "unknown".to_string(), "app".to_string()];
    let res = validate_dependencies(&order, &empty_config(), &model_registry(), &catalog, &StrMap::new());
    assert_eq!(res.resolved, vec!["app".to_string()]);
    assert_eq!(res.unresolved.len(), 1);
    assert_eq!(res.unresolved[0].capability_id, "db");
    assert_eq!(res.unresolved[0].missing, vec!["Provider 'postgres' not configured".to_string()]);
    assert!(!res.unresolved[0].required);
    assert_eq!(res.order, order);
}

#[test]
fn resolving_follows_the_dependency_order() {
    let catalog = vec![
        cap("app", vec![Dependency::Capability { id: "db".to_string(), required: true }]),
        cap("db", vec![]),
    ];
    let graph = DependencyGraph::with_catalog("app".to_string(), cap("app", vec![]), catalog);
    let res = graph.resolve(&empty_config(), &model_registry(), &StrMap::new()).unwrap();
    assert_eq!(res.order, vec!["db".to_string(), "app".to_string()]);
    assert_eq!(res.resolved, vec!["db".to_string(), "app".to_string()]);
    assert!(graph.validate_setup(&empty_config(), &model_registry(), &StrMap::new()).unwrap());
}

#[test]
fn a_cycle_refuses_resolution() {
    let catalog = vec![
        cap("a", vec![Dependency::Capability { id: "b".to_string(), required: true }]),
        cap("b", vec![Dependency::Capability { id: "a".to_string(), required: true }]),
    ];
    let err = resolve_capability_deps("a", catalog, &empty_config(), &model_registry(), &StrMap::new())
        .err()
        .unwrap();
    assert!(err.starts_with("Circular dependency detected: [["));
    assert!(err.contains("\"a\""));
}

#[test]
fn an_unknown_capability_is_refused() {
    let err = resolve_capability_deps("nope", vec![], &empty_config(), &model_registry(), &StrMap::new())
        .err()
        .unwrap();
    assert_eq!(err, "Capability 'nope' not found in registry");
}

#[test]
fn bundled_vision_needs_its_model_only() {
    let caps = CapabilityRegistry::bundled_capabilities();
    let res = resolve_capability_deps("vision", caps, &empty_config(), &model_registry(), &StrMap::new()).unwrap();
    assert_eq!(res.resolved, vec!["vision".to_string()]);
}

#[test]
fn described_model_dependencies_are_checked_shown_and_printed() {
    let d = Dependency::ModelFor {
        config_key: "model_id".to_string(),
        functions: vec![ModelFunction::Chat, ModelFunction::ToolCalling],
        required: true,
    };
    let derived = ShownAs::ModelFor {
        config_key: "model_id".to_string(),
        functions: vec![ModelFunction::Chat, ModelFunction::ToolCalling],
        required: true,
    };
    assert_eq!(dependency_debug_text(&d), format!("{:?}", derived));
    assert_eq!(d.display(), "Model: <unresolved> (required)");
    let models = model_registry();
    let caps = CapabilityRegistry::bundled_capabilities();
    let tools = StrMap::new();
    let config = empty_config();
    assert_eq!(
        missing_of(check_dependency(&d, &config, &models, &caps, &tools)),
        Some("No configured model satisfies 'model_id'".to_string())
    );
    let mut config = empty_config();
    let mut m = granite_cli::config::ModelConfig::default();
    m.model_id = "granite-3.1-8b-instruct".to_string();
    config.insert_model("chat", m);
    assert_eq!(missing_of(check_dependency(&d, &config, &models, &caps, &tools)), None);
}
