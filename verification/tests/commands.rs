use std::cmp::Ordering;

use granite_cli::capabilities::catalog::capability_types;
use granite_cli::capabilities::CapabilityMetadata;
use granite_cli::commands::model::parse_type_filter;
use granite_cli::commands::model::VariantRequirement;
use granite_cli::commands::setup::compare_versions_desc;
use granite_cli::commands::setup::format_size;
use granite_cli::commands::setup::parse_size;
use granite_cli::commands::CapabilityCommands;
use granite_cli::commands::LauncherCommands;
use granite_cli::commands::ModelCommands;
use granite_cli::commands::ProviderCommands;
use granite_cli::config::CapabilityConfig;
use granite_cli::config::Config;
use granite_cli::config::LauncherConfig;
use granite_cli::config::ModelConfig;
use granite_cli::config::ProviderConfig;
use granite_cli::config::ShellConfig;
use granite_cli::commands::model::Output;
use granite_cli::json::JsonValue;
use granite_cli::registry::Factory;
use granite_cli::launchers::catalog::launcher_registry;
use granite_cli::models::model_registry;
use granite_cli::models::ModelType;
use granite_cli::providers::ModelFormat;
use granite_cli::providers::ProviderMetadata;
use granite_cli::providers::ProviderType;

fn empty_config() -> Config {
    Config::new(ShellConfig {
        shell: "bash".to_string(),
        export_file: "/home/user/.bashrc".to_string(),
        export_format: "export {VAR}=\"{VALUE}\"".to_string(),
    })
}

fn config_with_launcher(id: &str, launcher_type: &str) -> Config {
    let mut config = empty_config();
    let mut l = LauncherConfig::default();
    l.launcher_id = id.to_string();
    l.launcher_type = launcher_type.to_string();
    config.insert_launcher(id, l);
    config
}

fn config_with_model(id: &str, provider_id: Option<&str>) -> Config {
    let mut config = empty_config();
    config.insert_model(
        id,
        ModelConfig {
            model_id: id.to_string(),
            provider_id: provider_id.map(String::from),
            variant: None,
            enabled: true,
        },
    );
    config
}

// -- launcher commands -------------------------------------------------------

#[test]
fn list_configured_launcher_shows_path_sentinel() {
    let config = config_with_launcher("my-goose", "goose");
    let table = LauncherCommands::list(&config);
    assert_eq!(table.rows.len(), 1);
    assert!(table.rows[0].iter().any(|c| c == "(PATH)"));
}

#[test]
fn list_columns_are_id_type_command() {
    let config = config_with_launcher("my-goose", "goose");
    let table = LauncherCommands::list(&config);
    assert!(table.headers.contains(&"ID".to_string()));
    assert!(table.headers.contains(&"TYPE".to_string()));
    assert!(!table.headers.contains(&"ENABLED".to_string()));
    assert!(table.headers.contains(&"COMMAND".to_string()));
}

#[test]
fn remove_existing_launcher_succeeds_and_disappears_from_list() {
    let mut config = config_with_launcher("my-goose", "goose");
    assert!(config.get_launcher("my-goose").is_some());
    let message = LauncherCommands::remove(&mut config, "my-goose").unwrap();
    assert!(config.get_launcher("my-goose").is_none());
    assert!(message.contains("my-goose") && message.contains("removed"));
}

#[test]
fn list_does_not_show_removed_launcher() {
    let mut config = config_with_launcher("my-goose", "goose");
    LauncherCommands::remove(&mut config, "my-goose").unwrap();
    let table = LauncherCommands::list(&config);
    assert!(table.rows.is_empty());
}

#[test]
fn launcher_list_sorted_by_type_then_id() {
    let mut config = empty_config();
    for (id, t) in [("z-goose", "goose"), ("a-goose", "goose"), ("my-bob", "bob")] {
        let mut l = LauncherConfig::default();
        l.launcher_id = id.to_string();
        l.launcher_type = t.to_string();
        config.insert_launcher(id, l);
    }
    let table = LauncherCommands::list(&config);
    assert_eq!(table.rows[0][1], "bob");
    assert_eq!(table.rows[1][0], "a-goose");
    assert_eq!(table.rows[2][0], "z-goose");
    assert_eq!(table.title, "Configured Launchers (3 launchers)");
}

#[test]
fn launcher_list_shows_configured_command_path() {
    let mut config = empty_config();
    let mut l = LauncherConfig::default();
    l.launcher_id = "my-bob".to_string();
    l.launcher_type = "bob".to_string();
    l.config = JsonValue::Object(vec![(
        "command_path".to_string(),
        JsonValue::Str("/opt/bin/bob".to_string()),
    )]);
    config.insert_launcher("my-bob", l);
    let table = LauncherCommands::list(&config);
    assert_eq!(table.rows[0], vec!["my-bob".to_string(), "bob".to_string(), "/opt/bin/bob".to_string()]);
}

#[test]
fn remove_nonexistent_launcher_returns_err() {
    let mut config = empty_config();
    let err = LauncherCommands::remove(&mut config, "doesnt-exist").unwrap_err();
    assert!(err.message.contains("Nothing to remove"));
    assert_eq!(err.message, "No launcher configured with id 'doesnt-exist'. Nothing to remove.");
}

#[test]
fn launcher_catalog_lists_every_type_by_id() {
    let table = LauncherCommands::catalog(&launcher_registry());
    assert_eq!(table.headers, vec!["ID".to_string(), "DEFAULT COMMAND".to_string()]);
    let ids: Vec<&str> = table.rows.iter().map(|r| r[0].as_str()).collect();
    assert_eq!(ids, vec!["bob", "goose", "hermes", "openclaw", "opencode"]);
    assert!(table.rows.iter().any(|r| r[0] == "goose" && r[1] == "goose"));
    assert_eq!(table.title, "Launcher Catalog (5 launchers)");
}

// -- model commands ----------------------------------------------------------

#[test]
fn list_configured_model_shows_provider_id() {
    let config = config_with_model("granite-3.1-8b-instruct", Some("my-ollama"));
    let table = ModelCommands::list(&config, &model_registry(), None);
    assert_eq!(table.rows.len(), 1);
    assert!(table.rows[0].iter().any(|c| c == "my-ollama"));
}

#[test]
fn list_configured_model_without_provider_shows_none() {
    let config = config_with_model("granite-3.1-8b-instruct", None);
    let table = ModelCommands::list(&config, &model_registry(), None);
    assert!(table.rows[0].iter().any(|c| c == "None"));
}

#[test]
fn list_unknown_model_id_in_config_is_skipped() {
    let config = config_with_model("this-model-does-not-exist", Some("p1"));
    let table = ModelCommands::list(&config, &model_registry(), None);
    assert_eq!(table.rows.len(), 0);
}

#[test]
fn model_list_filter_keeps_only_that_type() {
    let config = config_with_model("granite-3.1-8b-instruct", None);
    let table = ModelCommands::list(&config, &model_registry(), Some(ModelType::Vision));
    assert_eq!(table.rows.len(), 0);
    let table = ModelCommands::list(&config, &model_registry(), Some(ModelType::Text));
    assert_eq!(table.rows.len(), 1);
}

#[test]
fn model_info_unknown_model_is_refused() {
    let config = empty_config();
    let err = ModelCommands::info(&config, &model_registry(), "does-not-exist").unwrap_err();
    assert_eq!(err.message, "Model 'does-not-exist' not found in registry.");
}

#[test]
fn model_info_known_model_has_key_fields() {
    let config = empty_config();
    let detail = ModelCommands::info(&config, &model_registry(), "granite-3.1-8b-instruct").unwrap();
    assert_eq!(detail.title, "granite-3.1-8b-instruct");
    assert!(detail.fields.iter().any(|(k, _)| k == "Family"));
    assert!(detail.fields.iter().any(|(k, _)| k == "Context Length"));
    assert!(detail.fields.iter().any(|(k, _)| k == "Supported Functions"));
    assert!(detail.fields.iter().any(|(k, v)| k == "Context Length" && v == "8192 tokens"));
}

fn metadata_supporting(formats: Vec<ModelFormat>, precisions: Vec<&str>) -> ProviderMetadata {
    ProviderMetadata {
        id: "test".to_string(),
        name: "Test Provider".to_string(),
        description: "".to_string(),
        provider_type: ProviderType::Local,
        default_endpoint: "http://localhost".to_string(),
        api_capabilities: vec![],
        supported_formats: formats,
        supported_precisions: precisions.into_iter().map(String::from).collect(),
        authentication: vec![],
        tags: vec![],
    }
}

#[test]
fn admits_type_matches_format_and_precision_case_insensitively() {
    let requirement = VariantRequirement { format: "GGUF".to_string(), precision: "FP16".to_string() };
    let metadata = metadata_supporting(vec![ModelFormat::GGUF], vec!["fp16", "fp32"]);
    assert!(requirement.admits_type(&metadata));
}

#[test]
fn admits_type_rejects_unsupported_format() {
    let requirement = VariantRequirement { format: "gguf".to_string(), precision: "fp16".to_string() };
    let metadata = metadata_supporting(vec![ModelFormat::Safetensors], vec!["fp16"]);
    assert!(!requirement.admits_type(&metadata));
}

#[test]
fn admits_type_rejects_unsupported_precision() {
    let requirement = VariantRequirement { format: "gguf".to_string(), precision: "bfloat16".to_string() };
    let metadata = metadata_supporting(vec![ModelFormat::GGUF], vec!["fp16", "fp32"]);
    assert!(!requirement.admits_type(&metadata));
}

// -- provider commands -------------------------------------------------------

#[test]
fn list_disabled_provider_still_appears() {
    let mut config = empty_config();
    let mut p = ProviderConfig::default();
    p.provider_id = "my-ollama".to_string();
    p.provider_type = "ollama".to_string();
    p.enabled = false;
    p.config = JsonValue::Object(vec![(
        "base_url".to_string(),
        JsonValue::Str("http://localhost:11434".to_string()),
    )]);
    config.insert_provider("my-ollama", p);
    let table = ProviderCommands::list(&config);
    assert_eq!(table.rows.len(), 1);
    assert!(table.rows[0].iter().any(|c| c == "http://localhost:11434"));
    assert!(table.rows[0].iter().any(|c| c == "false"));
}

// -- setup helpers -----------------------------------------------------------

#[test]
fn compare_versions_desc_simple() {
    assert_eq!(compare_versions_desc("3.1", "3.0"), Ordering::Less);
    assert_eq!(compare_versions_desc("3.0", "3.1"), Ordering::Greater);
    assert_eq!(compare_versions_desc("3.1", "3.1"), Ordering::Equal);
}

#[test]
fn compare_versions_desc_multi_part() {
    assert_eq!(compare_versions_desc("3.1.1", "3.1.0"), Ordering::Less);
    assert_eq!(compare_versions_desc("3.1", "3.1.0"), Ordering::Greater);
}

#[test]
fn compare_versions_desc_major_difference() {
    assert_eq!(compare_versions_desc("4.0", "3.1"), Ordering::Less);
}

#[test]
fn compare_versions_desc_skips_non_numeric_parts() {
    assert_eq!(compare_versions_desc("3.x", "3.0"), Ordering::Greater);
    assert_eq!(compare_versions_desc("3.x.1", "3.1"), Ordering::Equal);
    assert_eq!(compare_versions_desc("10.0", "9.9"), Ordering::Less);
}

#[test]
fn format_size_billion() {
    assert_eq!(format_size(8_000_000_000), "8B");
}

#[test]
fn format_size_million() {
    assert_eq!(format_size(2_000_000), "2M");
}

#[test]
fn format_size_small_counts_are_plain() {
    assert_eq!(format_size(999_999), "999999");
    assert_eq!(format_size(8_290_000_000), "8B");
}

#[test]
fn parse_size_billion() {
    assert_eq!(parse_size("8B"), 8_000_000_000);
}

#[test]
fn parse_size_million() {
    assert_eq!(parse_size("2M"), 2_000_000);
}

#[test]
fn parse_size_unparsable_is_zero() {
    assert_eq!(parse_size("abc"), 0);
    assert_eq!(parse_size("42"), 42);
}

#[test]
fn catalog_has_id_and_default_command_columns() {
    let table = LauncherCommands::catalog(&launcher_registry());
    assert!(table.headers.contains(&"ID".to_string()));
    assert!(table.headers.contains(&"DEFAULT COMMAND".to_string()));
}

#[test]
fn catalog_contains_goose_and_bob() {
    let table = LauncherCommands::catalog(&launcher_registry());
    assert!(table.rows.iter().any(|r| r[0] == "goose"));
    assert!(table.rows.iter().any(|r| r[0] == "bob"));
}

#[test]
fn launcher_list_empty_config_has_zero_rows() {
    let table = LauncherCommands::list(&empty_config());
    assert_eq!(table.rows.len(), 0);
}

// -- capability commands -----------------------------------------------------

fn config_with_capability(id: &str, capability_type: &str) -> Config {
    let mut config = empty_config();
    config.insert_capability(
        id,
        CapabilityConfig {
            capability_id: id.to_string(),
            capability_type: capability_type.to_string(),
            enabled: true,
            config: JsonValue::Object(vec![]),
        },
    );
    config
}

fn capability_catalog() -> Factory<CapabilityMetadata> {
    capability_types()
}

#[test]
fn catalog_table_has_id_name_dependencies_columns() {
    let table = CapabilityCommands::catalog(&capability_catalog());
    assert!(table.headers.contains(&"ID".to_string()));
    assert!(table.headers.contains(&"NAME".to_string()));
    assert!(table.headers.contains(&"DEPENDENCIES".to_string()));
}

#[test]
fn catalog_contains_agent_model() {
    let table = CapabilityCommands::catalog(&capability_catalog());
    assert!(table.rows.iter().any(|r| r[0] == "agent-model"));
}

#[test]
fn capability_list_empty_config_has_zero_rows() {
    let table = CapabilityCommands::list(&empty_config());
    assert_eq!(table.rows.len(), 0);
}

#[test]
fn list_configured_capability_shows_row() {
    let config = config_with_capability("my-cap", "agent-model");
    let table = CapabilityCommands::list(&config);
    assert_eq!(table.rows.len(), 1);
    assert_eq!(table.rows[0][0], "my-cap");
    assert_eq!(table.rows[0][1], "agent-model");
}

#[test]
fn info_unknown_capability_returns_err() {
    let result = CapabilityCommands::info(&empty_config(), &capability_catalog(), "does-not-exist");
    assert!(result.is_err());
    assert_eq!(result.unwrap_err().message, "Capability 'does-not-exist' not found in registry.");
}

#[test]
fn info_configured_only_capability_renders_detail_not_err() {
    let config = config_with_capability("custom-cap", "not-a-real-type");
    let detail = CapabilityCommands::info(&config, &capability_catalog(), "custom-cap").unwrap();
    assert!(!detail.fields.is_empty());
    assert_eq!(detail.fields[0].0, "Note");
}

#[test]
fn info_configured_agent_model_resolves_via_catalog_type() {
    let config = config_with_capability("chat", "agent-model");
    let detail = CapabilityCommands::info(&config, &capability_catalog(), "chat").unwrap();
    assert_eq!(detail.title, "chat");
    assert!(detail.fields.iter().any(|(k, v)| k == "Type" && v == "agent-model"));
    assert!(detail.fields.iter().any(|(k, v)| k == "Name" && v == "Agent Model Binding"));
}

#[test]
fn info_of_a_configured_capability_carries_its_settings() {
    let mut config = empty_config();
    config.insert_capability(
        "chat",
        CapabilityConfig {
            capability_id: "chat".to_string(),
            capability_type: "agent-model".to_string(),
            enabled: true,
            config: JsonValue::Object(vec![
                ("model".to_string(), JsonValue::Str("granite-4".to_string())),
                ("temperature".to_string(), JsonValue::Number("0.2".to_string())),
            ]),
        },
    );
    let detail = CapabilityCommands::info(&config, &capability_catalog(), "chat").unwrap();
    assert_eq!(detail.settings.len(), 2);
    assert_eq!(detail.settings[0].0, "model");
    assert!(matches!(&detail.settings[0].1, JsonValue::Str(v) if v == "granite-4"));
    assert_eq!(detail.settings[1].0, "temperature");
    assert!(!detail.fields.iter().any(|(k, _)| k == "Config"));
}

#[test]
fn info_of_a_catalog_entry_alone_has_no_settings() {
    let detail = CapabilityCommands::info(&empty_config(), &capability_catalog(), "agent-model").unwrap();
    assert!(detail.settings.is_empty());
}

#[test]
fn remove_existing_capability_succeeds_and_disappears_from_list() {
    let mut config = config_with_capability("my-cap", "agent-model");
    assert!(config.get_capability("my-cap").is_some());
    let message = CapabilityCommands::remove(&mut config, "my-cap").unwrap();
    assert!(config.get_capability("my-cap").is_none());
    assert!(message.contains("my-cap") && message.contains("removed"));
}

#[test]
fn remove_nonexistent_capability_returns_err() {
    let mut config = empty_config();
    let err = CapabilityCommands::remove(&mut config, "doesnt-exist").unwrap_err();
    assert!(err.message.contains("Nothing to remove"));
}

#[test]
fn list_does_not_show_removed_capability() {
    let mut config = config_with_capability("my-cap", "agent-model");
    CapabilityCommands::remove(&mut config, "my-cap").unwrap();
    let table = CapabilityCommands::list(&config);
    assert!(table.rows.is_empty());
}

// -- model catalog and search --------------------------------------------------

fn table_of(output: Output) -> granite_cli::commands::Table {
    match output {
        Output::Table(t) => t,
        Output::Info(msg) => panic!("expected a table, got: {msg}"),
    }
}

#[test]
fn catalog_table_has_correct_column_headers() {
    let table = table_of(ModelCommands::catalog(&model_registry(), None));
    for h in ["ID", "FAMILY", "SIZE", "CONTEXT", "TYPE"] {
        assert!(table.headers.contains(&h.to_string()));
    }
}

#[test]
fn catalog_no_filter_returns_all_models() {
    let table = table_of(ModelCommands::catalog(&model_registry(), None));
    assert!(!table.rows.is_empty(), "expected at least one model in catalog");
    assert_eq!(table.rows.len(), 6);
    assert_eq!(table.title, "Model Catalog (6 models)");
}

#[test]
fn catalog_text_filter_returns_only_text_models() {
    let table = table_of(ModelCommands::catalog(&model_registry(), Some(ModelType::Text)));
    for row in &table.rows {
        assert_eq!(row[4], "Text", "all filtered rows should be Text type");
    }
}

#[test]
fn catalog_vision_filter_returns_only_vision_models() {
    let table = table_of(ModelCommands::catalog(&model_registry(), Some(ModelType::Vision)));
    for row in &table.rows {
        assert_eq!(row[4], "Vision");
    }
}

#[test]
fn catalog_speech_filter_returns_only_speech_models() {
    let table = table_of(ModelCommands::catalog(&model_registry(), Some(ModelType::Speech)));
    for row in &table.rows {
        assert_eq!(row[4], "Speech");
    }
}

#[test]
fn catalog_row_shows_size_in_billions_and_context() {
    let table = table_of(ModelCommands::catalog(&model_registry(), None));
    let row = table.rows.iter().find(|r| r[0] == "granite-3.1-8b-instruct").unwrap();
    assert_eq!(row, &vec!["granite-3.1-8b-instruct", "Granite", "8B", "8192", "Text"]);
}

#[test]
fn list_empty_config_renders_zero_rows() {
    let table = ModelCommands::list(&empty_config(), &model_registry(), None);
    assert_eq!(table.rows.len(), 0);
}

#[test]
fn info_known_model_renders_detail_with_key_fields() {
    let detail = ModelCommands::info(&empty_config(), &model_registry(), "granite-3.1-8b-instruct").unwrap();
    assert_eq!(detail.title, "granite-3.1-8b-instruct");
    assert!(detail.fields.iter().any(|(k, _)| k == "Family"));
    assert!(detail.fields.iter().any(|(k, _)| k == "Context Length"));
    assert!(detail.fields.iter().any(|(k, _)| k == "Supported Functions"));
}

#[test]
fn info_unknown_model_returns_err_and_emits_error() {
    let result = ModelCommands::info(&empty_config(), &model_registry(), "does-not-exist");
    assert!(result.is_err());
    let e = result.unwrap_err();
    assert_eq!(e.message, "Model 'does-not-exist' not found in registry.");
    let hint = e.hint.unwrap();
    assert!(hint.starts_with("Available models: "));
    assert!(hint.contains("granite-3.1-8b-instruct"));
}

#[test]
fn search_returns_matching_models_by_id() {
    let table = table_of(ModelCommands::search(&model_registry(), "granite-3.1-8b-instruct"));
    assert!(!table.rows.is_empty());
    assert!(table.rows.iter().any(|r| r[0] == "granite-3.1-8b-instruct"));
}

#[test]
fn search_is_case_insensitive() {
    let table = table_of(ModelCommands::search(&model_registry(), "GRANITE"));
    assert!(!table.rows.is_empty());
}

#[test]
fn search_no_match_emits_info_not_table() {
    match ModelCommands::search(&model_registry(), "zzznomatch") {
        Output::Info(msg) => assert_eq!(msg, "No models found matching 'zzznomatch'."),
        Output::Table(_) => panic!("expected no table"),
    }
}

#[test]
fn search_family_match_returns_rows() {
    let table = table_of(ModelCommands::search(&model_registry(), "Guardian"));
    assert_eq!(table.rows.len(), 1);
    assert_eq!(table.rows[0][0], "granite-guardian-3.1-8b");
}

// -- provider commands ---------------------------------------------------------

fn add_provider(config: &mut Config, id: &str, provider_type: &str, url: &str) {
    let mut p = ProviderConfig::default();
    p.provider_id = id.to_string();
    p.provider_type = provider_type.to_string();
    p.config = JsonValue::Object(vec![("base_url".to_string(), JsonValue::Str(url.to_string()))]);
    config.insert_provider(id, p);
}

#[test]
fn provider_list_empty_config_has_zero_rows() {
    let table = ProviderCommands::list(&empty_config());
    assert_eq!(table.rows.len(), 0);
}

#[test]
fn list_configured_provider_shows_base_url() {
    let mut config = empty_config();
    add_provider(&mut config, "my-ollama", "openai-compatible", "http://localhost:11434");
    let table = ProviderCommands::list(&config);
    assert_eq!(table.rows.len(), 1);
    assert!(table.rows[0].iter().any(|c| c.contains("11434")));
}

#[test]
fn provider_list_sorted_by_type_then_id() {
    let mut config = empty_config();
    add_provider(&mut config, "prod-openai", "openai-compatible", "http://prod");
    add_provider(&mut config, "local-ollama", "ollama", "http://localhost:11434");
    add_provider(&mut config, "dev-openai", "openai-compatible", "http://dev");
    let table = ProviderCommands::list(&config);
    assert_eq!(table.rows.len(), 3);
    assert_eq!(table.rows[0][1], "ollama");
    assert_eq!(table.rows[1][1], "openai-compatible");
    assert_eq!(table.rows[2][1], "openai-compatible");
    assert_eq!(table.rows[1][0], "dev-openai");
    assert_eq!(table.rows[2][0], "prod-openai");
}

#[test]
fn type_filters_are_parsed_or_refused() {
    assert!(matches!(parse_type_filter(None), Ok(None)));
    assert!(matches!(parse_type_filter(Some("vision")), Ok(Some(ModelType::Vision))));
    assert!(matches!(parse_type_filter(Some("embedding")), Ok(Some(ModelType::Embedding))));
    assert_eq!(
        parse_type_filter(Some("audio")).err().unwrap(),
        "Unknown model type: audio. Valid types: text, vision, speech, embedding"
    );
}

#[test]
fn parsing_a_displayed_size_gives_it_back() {
    for n in [0u64, 7, 999_999, 2_000_000, 350_000_000, 8_000_000_000, 20_000_000_000] {
        assert_eq!(parse_size(&format_size(n)), n);
    }
    assert_eq!(parse_size("8B"), 8_000_000_000);
    assert_eq!(parse_size("2M"), 2_000_000);
}

#[test]
fn search_is_the_same_for_queries_that_lower_case_alike() {
    let a = table_of(ModelCommands::search(&model_registry(), "GRANITE"));
    let b = table_of(ModelCommands::search(&model_registry(), "granite"));
    assert_eq!(a.rows, b.rows);
    assert!(!a.rows.is_empty());
}

#[test]
fn model_setup_config_records_the_chosen_variant_and_provider() {
    let registry = model_registry();
    let variant = &registry.get("granite-3.1-8b-instruct").unwrap().variants[0];
    let expected = format!("{}/{}", variant.format, variant.precision);
    let mc = ModelCommands::setup_config(
        &empty_config(),
        &registry,
        "granite-3.1-8b-instruct",
        0,
        Some("ollama".to_string()),
        false,
    )
    .unwrap()
    .unwrap();
    assert_eq!(mc.model_id, "granite-3.1-8b-instruct");
    assert_eq!(mc.provider_id.as_deref(), Some("ollama"));
    assert_eq!(mc.variant.as_deref(), Some(expected.as_str()));
    assert!(mc.enabled);
}

#[test]
fn model_setup_config_keeps_an_enabled_model_unless_overwritten() {
    let config = config_with_model("granite-3.1-8b-instruct", Some("ollama"));
    let registry = model_registry();
    let kept = ModelCommands::setup_config(&config, &registry, "granite-3.1-8b-instruct", 0, None, false).unwrap();
    assert!(kept.is_none());
    let replaced = ModelCommands::setup_config(&config, &registry, "granite-3.1-8b-instruct", 0, None, true).unwrap();
    assert!(replaced.unwrap().provider_id.is_none());
}

#[test]
fn model_setup_config_refuses_an_unknown_model_with_the_available_ones() {
    let err = match ModelCommands::setup_config(&empty_config(), &model_registry(), "nope", 0, None, false) {
        Err(e) => e,
        Ok(_) => panic!("an unknown model is refused"),
    };
    assert_eq!(err.message, "Model 'nope' not found in registry.");
    assert!(err.hint.unwrap().contains("granite-3.1-8b-instruct"));
}

#[test]
fn only_models_with_a_configured_provider_are_pullable() {
    let mut config = config_with_model("granite-a", Some("local"));
    config.insert_model(
        "granite-b",
        ModelConfig { model_id: "granite-b".to_string(), provider_id: None, variant: None, enabled: true },
    );
    config.insert_model(
        "granite-c",
        ModelConfig { model_id: "granite-c".to_string(), provider_id: Some("gone".to_string()), variant: None, enabled: true },
    );
    config.insert_provider(
        "local",
        ProviderConfig {
            provider_id: "local".to_string(),
            provider_type: "ollama".to_string(),
            config: JsonValue::Object(vec![]),
            enabled: true,
        },
    );
    let selected = vec![
        "granite-c".to_string(),
        "granite-a".to_string(),
        "granite-b".to_string(),
        "not-configured".to_string(),
    ];
    let pulls = granite_cli::commands::configure::pullable_models(&config, &selected);
    assert_eq!(pulls, vec![("granite-a".to_string(), "local".to_string(), "ollama".to_string())]);
}

fn family_model(id: &str, family: &str, version: &str) -> granite_cli::models::base::ModelMetadata {
    granite_cli::models::base::ModelMetadata {
        id: id.to_string(),
        family: family.to_string(),
        version: version.to_string(),
        size: 1_000_000_000,
        context_length: 4096,
        model_type: ModelType::Text,
        huggingface_repo: String::new(),
        required_provider_capabilities: vec![],
        variants: vec![],
        description: None,
        tags: vec![],
        supported_functions: vec![],
    }
}

#[test]
fn discovery_picks_one_unconfigured_model_per_family() {
    let registry = model_registry();
    let picked = granite_cli::commands::setup::latest_unconfigured_per_family(&empty_config().models, &registry);
    assert_eq!(picked.len(), 4);
    assert!(picked.contains(&"granite-3.1-20b-instruct".to_string()));
    assert!(picked.contains(&"granite-vision-3.1-8b".to_string()));
    let config = config_with_model("granite-3.1-20b-instruct", None);
    let picked = granite_cli::commands::setup::latest_unconfigured_per_family(&config.models, &registry);
    assert!(picked.contains(&"granite-3.1-8b-instruct".to_string()));
    assert!(!picked.contains(&"granite-3.1-20b-instruct".to_string()));
}

#[test]
fn discovery_picks_the_newest_version_of_a_family() {
    let mut catalog = Factory::new();
    catalog.register("a-3.0", family_model("a-3.0", "A", "3.0"));
    catalog.register("a-3.1", family_model("a-3.1", "A", "3.1"));
    catalog.register("b-1", family_model("b-1", "B", "1"));
    let picked = granite_cli::commands::setup::latest_unconfigured_per_family(&empty_config().models, &catalog);
    assert_eq!(picked.len(), 2);
    assert!(picked.contains(&"a-3.1".to_string()));
    assert!(picked.contains(&"b-1".to_string()));
}

#[test]
fn the_latest_version_is_found() {
    let models = vec![
        ("a".to_string(), family_model("a", "A", "3.0")),
        ("b".to_string(), family_model("b", "A", "3.1")),
        ("c".to_string(), family_model("c", "A", "3.1")),
        ("d".to_string(), family_model("d", "A", "2.9")),
    ];
    assert_eq!(granite_cli::commands::setup::find_latest_version(&models).unwrap().0, "c");
    assert!(granite_cli::commands::setup::find_latest_version(&vec![]).is_none());
}
