use granite_cli::providers::ApiSurface;
use granite_cli::providers::AuthType;
use granite_cli::providers::ProviderType;
use granite_cli::capabilities::Dependency;
use granite_cli::models::ModelType;
use granite_cli::registry::secret::Secret;
use granite_cli::registry::CapabilityRegistry;
use granite_cli::registry::Factory;
use granite_cli::registry::ProviderRegistry;
use granite_cli::registry::Registry;

// -- factory -------------------------------------------------------------------

struct TestConfig {
    value: i32,
}

/// What a test implementation registers: its description and how it builds
/// its value from the configuration.
struct TestEntry {
    metadata: String,
    factor: i32,
}

fn impl1() -> TestEntry {
    TestEntry { metadata: "TestImpl1: A test implementation".to_string(), factor: 1 }
}

fn impl2() -> TestEntry {
    TestEntry { metadata: "TestImpl2: Another test implementation".to_string(), factor: 2 }
}

fn build(entry: &TestEntry, cfg: &TestConfig) -> i32 {
    cfg.value * entry.factor
}

#[test]
fn test_factory_registration() {
    let mut factory = Factory::new();
    factory.register("impl1", impl1());
    factory.register("impl2", impl2());

    assert!(factory.get("impl1").is_some());
    assert!(factory.get("impl2").is_some());
    assert!(factory.get("impl3").is_none());
}

#[test]
fn test_factory_metadata() {
    let mut factory = Factory::new();
    factory.register("impl1", impl1());
    factory.register("impl2", impl2());

    let meta1 = factory.get("impl1").unwrap();
    assert!(meta1.metadata.contains("TestImpl1"));

    let meta2 = factory.get("impl2").unwrap();
    assert!(meta2.metadata.contains("TestImpl2"));
}

#[test]
fn test_factory_construction() {
    let mut factory = Factory::new();
    factory.register("impl1", impl1());
    factory.register("impl2", impl2());

    let cfg = TestConfig { value: 42 };

    let inst1 = factory.construct("impl1").unwrap();
    assert_eq!(build(inst1, &cfg), 42);

    let inst2 = factory.construct("impl2").unwrap();
    assert_eq!(build(inst2, &cfg), 84);
}

#[test]
fn test_factory_construct_unknown() {
    let factory: Factory<TestEntry> = Factory::new();
    let result = factory.construct("unknown");
    assert!(result.is_err());
    assert!(result.err().unwrap().contains("Unknown instance type"));
}

#[test]
fn test_factory_list() {
    let mut factory = Factory::new();
    factory.register("impl1", impl1());
    factory.register("impl2", impl2());

    let list = factory.list();
    assert_eq!(list.len(), 2);
    assert!(list.iter().any(|(k, _)| k == "impl1"));
    assert!(list.iter().any(|(k, _)| k == "impl2"));
}

#[test]
fn test_factory_default() {
    let factory: Factory<TestEntry> = Factory::default();
    assert_eq!(factory.list().len(), 0);
}

#[test]
fn factory_register_replaces_an_earlier_registration() {
    let mut factory = Factory::new();
    factory.register("impl", impl1());
    factory.register("impl", impl2());
    assert_eq!(factory.list().len(), 1);
    assert_eq!(factory.get("impl").unwrap().factor, 2);
}

#[test]
fn factory_construct_unknown_names_the_type() {
    let factory: Factory<TestEntry> = Factory::new();
    assert_eq!(factory.construct("nope").err().unwrap(), "Unknown instance type: nope");
}

// -- capabilities ----------------------------------------------------------------

#[test]
fn test_capability_registry_has_bundled_capabilities() {
    let registry = CapabilityRegistry::new();
    let capabilities = registry.list();
    assert_eq!(capabilities.len(), 4);
}

#[test]
fn test_capability_registry_get_by_id() {
    let registry = CapabilityRegistry::new();
    let cap = registry.get("docling");
    assert!(cap.is_some());
    let cap = cap.unwrap();
    assert_eq!(cap.name, "Document Conversion");
}

#[test]
fn test_capability_registry_get_vision() {
    let registry = CapabilityRegistry::new();
    let cap = registry.get("vision");
    assert!(cap.is_some());
    let cap = cap.unwrap();
    assert!(cap.dependencies.iter().any(
        |d| matches!(d, Dependency::Model { id, required: true } if id == "granite-vision-3.1-8b")
    ));
}

#[test]
fn test_capability_registry_get_speech() {
    let registry = CapabilityRegistry::new();
    let cap = registry.get("speech");
    assert!(cap.is_some());
    let cap = cap.unwrap();
    assert!(cap.dependencies.iter().any(
        |d| matches!(d, Dependency::Model { id, required: true } if id == "granite-speech-1.0")
    ));
}

#[test]
fn test_capability_registry_get_compiler() {
    let registry = CapabilityRegistry::new();
    let cap = registry.get("compiler");
    assert!(cap.is_some());
    let cap = cap.unwrap();
    assert!(cap
        .dependencies
        .iter()
        .any(|d| matches!(d, Dependency::ExternalTool { name, .. } if name == "mellea-compiler")));
}

#[test]
fn test_capability_registry_get_not_found() {
    let registry = CapabilityRegistry::new();
    let cap = registry.get("nonexistent-capability");
    assert!(cap.is_none());
}

#[test]
fn test_capability_registry_search() {
    let registry = CapabilityRegistry::new();
    let results = registry.search("document");
    assert!(results.len() > 0);
}

#[test]
fn test_capability_registry_search_tag() {
    let registry = CapabilityRegistry::new();
    let results = registry.search("skills");
    assert!(results.len() > 0);
}

#[test]
fn test_capability_dependencies() {
    let registry = CapabilityRegistry::new();
    let cap = registry.get("docling").unwrap();
    assert_eq!(cap.dependencies.len(), 1);
    match &cap.dependencies[0] {
        Dependency::ExternalTool { name, check_command } => {
            assert_eq!(name, "docling");
            assert!(check_command.contains("import docling"));
        }
        _ => panic!("Expected ExternalTool dependency"),
    }
}

#[test]
fn test_capability_hooks() {
    let registry = CapabilityRegistry::new();
    let cap = registry.get("vision").unwrap();
    assert!(cap.hooks.contains(&"on_setup".to_string()));
    assert!(cap.hooks.contains(&"on_pre_launch".to_string()));
    assert!(cap.hooks.contains(&"on_shutdown".to_string()));
}

#[test]
fn test_capability_display() {
    let registry = CapabilityRegistry::new();
    let cap = registry.get("docling").unwrap();
    let display = cap.display();
    assert!(display.contains("docling"));
    assert!(display.contains("Convert various document formats"));
}

#[test]
fn capability_display_is_id_version_description() {
    let registry = CapabilityRegistry::new();
    let cap = registry.get("speech").unwrap();
    assert_eq!(
        cap.display(),
        "speech v0.1.0 - Transcribe and translate audio files using Granite Speech models."
    );
}

#[test]
fn capability_search_is_case_insensitive_and_in_catalog_order() {
    let registry = CapabilityRegistry::new();
    let ids: Vec<&str> = registry.search("GRANITE").iter().map(|c| c.id.as_str()).collect();
    assert_eq!(ids, vec!["vision", "speech", "compiler"]);
}

#[test]
fn capability_list_keeps_catalog_order() {
    let registry = CapabilityRegistry::new();
    let ids: Vec<&str> = registry.list().iter().map(|c| c.id.as_str()).collect();
    assert_eq!(ids, vec!["docling", "vision", "speech", "compiler"]);
}

// -- providers -------------------------------------------------------------------

#[test]
fn test_provider_registry_has_bundled_providers() {
    let registry = ProviderRegistry::new();
    let providers = registry.list();
    assert!(providers.len() >= 4);
}

#[test]
fn test_provider_registry_get_by_id() {
    let registry = ProviderRegistry::new();
    let provider = registry.get("openai");
    assert!(provider.is_some());
    let provider = provider.unwrap();
    assert_eq!(provider.name, "OpenAI");
    assert_eq!(provider.provider_type, ProviderType::Hosted);
}

#[test]
fn test_provider_registry_get_ollama() {
    let registry = ProviderRegistry::new();
    let provider = registry.get("ollama");
    assert!(provider.is_some());
    let provider = provider.unwrap();
    assert_eq!(provider.provider_type, ProviderType::Local);
    assert_eq!(provider.default_endpoint, "http://localhost:11434");
}

#[test]
fn test_provider_registry_get_anthropic() {
    let registry = ProviderRegistry::new();
    let provider = registry.get("anthropic");
    assert!(provider.is_some());
    let provider = provider.unwrap();
    assert!(provider.api_capabilities.contains(&ApiSurface::AnthropicMessages));
}

#[test]
fn test_provider_registry_get_not_found() {
    let registry = ProviderRegistry::new();
    let provider = registry.get("nonexistent-provider");
    assert!(provider.is_none());
}

#[test]
fn test_provider_registry_search() {
    let registry = ProviderRegistry::new();
    let results = registry.search("local");
    assert!(results.len() > 0);
    assert!(results.iter().all(|p| p.tags.contains(&"local".to_string())));
}

#[test]
fn test_provider_registry_search_name() {
    let registry = ProviderRegistry::new();
    let results = registry.search("helpful");
    assert!(results.len() > 0);
}

#[test]
fn test_provider_type_display() {
    assert_eq!(ProviderType::Hosted.display(), "Hosted");
    assert_eq!(ProviderType::Local.display(), "Local");
}

#[test]
fn test_auth_type_display() {
    assert_eq!(AuthType::ApiKey.display(), "API Key");
    assert_eq!(AuthType::NoAuth.display(), "None");
}

#[test]
fn test_provider_api_capabilities() {
    let registry = ProviderRegistry::new();
    let openai = registry.get("openai").unwrap();
    assert!(openai.api_capabilities.contains(&ApiSurface::OpenAIChat));

    let anthropic = registry.get("anthropic").unwrap();
    assert!(anthropic.api_capabilities.contains(&ApiSurface::AnthropicMessages));

    let ollama = registry.get("ollama").unwrap();
    assert!(ollama.api_capabilities.contains(&ApiSurface::OllamaChat));
}

#[test]
fn provider_display_shows_type_name_and_description() {
    let registry = ProviderRegistry::new();
    let ollama = registry.get("ollama").unwrap();
    assert_eq!(
        ollama.display(),
        "ollama (Local): Ollama - Local model serving via Ollama. Supports many open-source models."
    );
}

#[test]
fn provider_search_finds_nothing_for_unknown_text() {
    let registry = ProviderRegistry::new();
    assert!(registry.search("zzz-no-such-provider").is_empty());
}

// -- models ----------------------------------------------------------------------

#[test]
fn test_model_type_display() {
    assert_eq!(ModelType::Text.display(), "Text");
    assert_eq!(ModelType::Vision.display(), "Vision");
    assert_eq!(ModelType::Speech.display(), "Speech");
    assert_eq!(ModelType::Embedding.display(), "Embedding");
}

// -- secrets ---------------------------------------------------------------------

#[test]
fn secret_debug_never_leaks_the_value() {
    let secret = Secret("super-sensitive-value".to_string());
    let debug_str = secret.debug_repr();
    assert!(!debug_str.contains("super-sensitive-value"));
    assert!(debug_str.contains("****"));
}

#[test]
fn provider_registry_holds_every_provider_type() {
    let f = granite_cli::providers::catalog::provider_registry();
    assert_eq!(f.list().len(), 3);
    assert_eq!(f.get("ollama").unwrap().name, "Ollama");
    assert_eq!(f.get("llamacpp").unwrap().name, "llama.cpp");
    assert!(f.get("vllm").is_none());
    match f.construct("vllm") {
        Ok(_) => panic!("vllm is not a provider type"),
        Err(e) => assert_eq!(e, "Unknown instance type: vllm"),
    }
}

#[test]
fn capability_catalog_registers_each_bundled_capability() {
    let f = granite_cli::registry::capabilities::capability_catalog();
    assert_eq!(f.list().len(), 4);
    for id in ["docling", "vision", "speech", "compiler"] {
        assert_eq!(f.get(id).unwrap().id, id);
    }
    assert_eq!(f.get("vision").unwrap().name, "Visual Analysis");
    assert!(f.get("agent-model").is_none());
}

#[test]
fn capability_types_holds_the_agent_model_binding() {
    let f = granite_cli::capabilities::catalog::capability_types();
    assert_eq!(f.list().len(), 1);
    let m = f.get("agent-model").unwrap();
    assert_eq!(m.name, "Agent Model Binding");
    assert_eq!(m.binding_types.len(), 1);
}

#[test]
fn catalog_table_has_id_endpoint_columns() {
    let table = granite_cli::commands::ProviderCommands::catalog(&granite_cli::providers::catalog::provider_registry());
    assert!(table.headers.contains(&"ID".to_string()));
    assert!(table.headers.contains(&"DEFAULT ENDPOINT".to_string()));
    assert!(!table.headers.contains(&"TYPE".to_string()));
}

#[test]
fn catalog_contains_openai_compatible_entry() {
    let table = granite_cli::commands::ProviderCommands::catalog(&granite_cli::providers::catalog::provider_registry());
    assert!(table.rows.iter().any(|r| r[0] == "openai-compatible"));
    assert!(table.rows.iter().any(|r| r[0] == "openai-compatible" && r[1] == "https://api.openai.com"));
}
