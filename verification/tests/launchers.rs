use granite_cli::capabilities::AgentModelBinding;
use granite_cli::capabilities::BindingType;
use granite_cli::json::JsonValue;
use granite_cli::launchers::base::check_binding_types;
use granite_cli::launchers::bob::BobLauncherConfig;
use granite_cli::launchers::goose::GooseLauncherConfig;
use granite_cli::launchers::hermes::HermesLauncherConfig;
use granite_cli::launchers::openclaw::OpenClawLauncherConfig;
use granite_cli::launchers::opencode::generate_config;
use granite_cli::launchers::opencode::opencode_base_url;
use granite_cli::launchers::opencode::OpenCodeLauncherConfig;
use granite_cli::launchers::BobLauncher;
use granite_cli::launchers::EnvBinding;
use granite_cli::launchers::GooseLauncher;
use granite_cli::launchers::HermesLauncher;
use granite_cli::launchers::LauncherMetadata;
use granite_cli::launchers::OpenClawLauncher;
use granite_cli::launchers::OpenCodeLauncher;
use granite_cli::providers::ApiType;
use granite_cli::registry::secret::Secret;

fn obj(members: Vec<(&str, JsonValue)>) -> JsonValue {
    JsonValue::Object(members.into_iter().map(|(k, v)| (k.to_string(), v)).collect())
}

fn s(v: &str) -> JsonValue {
    JsonValue::Str(v.to_string())
}

fn at<'a>(v: &'a JsonValue, path: &[&str]) -> Option<&'a JsonValue> {
    let mut cur = v;
    for key in path {
        cur = cur.get(key)?;
    }
    Some(cur)
}

fn str_at<'a>(v: &'a JsonValue, path: &[&str]) -> Option<&'a str> {
    at(v, path).and_then(|x| x.as_str())
}

fn number_at(v: &JsonValue, path: &[&str]) -> Option<String> {
    match at(v, path) {
        Some(JsonValue::Number(n)) => Some(n.clone()),
        _ => None,
    }
}

fn value_of<'a>(overlay: &'a [EnvBinding], key: &str) -> Option<&'a str> {
    overlay.iter().find(|b| b.key == key).map(|b| b.value.as_str())
}

fn binding() -> AgentModelBinding {
    AgentModelBinding {
        api_type: ApiType::OpenAI,
        provider_name: "my-ollama".to_string(),
        base_url: "http://localhost:11434".to_string(),
        model_name: "granite4.1:8b".to_string(),
        endpoint_path: "/v1/chat/completions".to_string(),
        api_key: None,
        verify_ssl: true,
        context_length: Some(131072),
    }
}

fn with_key(key: &str) -> AgentModelBinding {
    let mut b = binding();
    b.api_key = Some(Secret::from_str_value(key));
    b
}

// -- metadata ----------------------------------------------------------------

#[test]
fn launcher_metadata_display() {
    let meta = LauncherMetadata {
        name: "Test".to_string(),
        description: "A test launcher".to_string(),
        default_command: "test".to_string(),
        supported_capabilities: vec![],
        tags: vec![],
    };
    assert_eq!(meta.display(), "A test launcher");
}

#[test]
fn metadata_name_is_bob_cli() {
    let meta = BobLauncher::metadata();
    assert_eq!(meta.name, "Bob CLI");
    assert_eq!(meta.default_command, "bob");
}

#[test]
fn metadata_name_is_goose_cli() {
    let meta = GooseLauncher::metadata();
    assert_eq!(meta.name, "Goose CLI");
    assert_eq!(meta.default_command, "goose");
    assert!(meta.supported_capabilities.contains(&BindingType::AgentModel));
}

#[test]
fn metadata_name_is_openclaw_cli() {
    let meta = OpenClawLauncher::metadata();
    assert_eq!(meta.name, "OpenClaw CLI");
    assert_eq!(meta.default_command, "openclaw");
    assert!(meta.supported_capabilities.contains(&BindingType::AgentModel));
}

#[test]
fn metadata_name_is_hermes_cli() {
    let meta = HermesLauncher::metadata();
    assert_eq!(meta.name, "Hermes CLI");
    assert_eq!(meta.default_command, "hermes");
    assert!(meta.supported_capabilities.contains(&BindingType::AgentModel));
}

#[test]
fn metadata_name_is_opencode_cli() {
    let meta = OpenCodeLauncher::metadata();
    assert_eq!(meta.name, "OpenCode CLI");
    assert_eq!(meta.default_command, "opencode");
    assert!(meta.supported_capabilities.contains(&BindingType::AgentModel));
}

// -- command resolution --------------------------------------------------------

#[test]
fn command_defaults_to_bob() {
    let l = BobLauncher::new(BobLauncherConfig::from_json(&obj(vec![])));
    assert_eq!(l.command(), "bob");
}

#[test]
fn bob_command_uses_explicit_path_when_set() {
    let l = BobLauncher::new(BobLauncherConfig::from_json(&obj(vec![("command_path", s("/opt/bin/bob"))])));
    assert_eq!(l.command(), "/opt/bin/bob");
}

#[test]
fn command_defaults_to_goose() {
    let l = GooseLauncher::new("goose", GooseLauncherConfig::from_json(&obj(vec![])));
    assert_eq!(l.command(), "goose");
}

#[test]
fn goose_command_uses_explicit_path_when_set() {
    let cfg = obj(vec![("command_path", s("/opt/bin/goose"))]);
    let l = GooseLauncher::new("goose", GooseLauncherConfig::from_json(&cfg));
    assert_eq!(l.command(), "/opt/bin/goose");
}

#[test]
fn goose_instance_id_round_trips_from_construction() {
    let l = GooseLauncher::new("goose-local", GooseLauncherConfig::from_json(&obj(vec![])));
    assert_eq!(l.instance_id, "goose-local");
}

#[test]
fn command_defaults_to_hermes() {
    let l = HermesLauncher::new("hermes", HermesLauncherConfig::from_json(&obj(vec![])));
    assert_eq!(l.command(), "hermes");
}

#[test]
fn hermes_command_uses_explicit_path_when_set() {
    let cfg = obj(vec![("command_path", s("/opt/bin/hermes"))]);
    let l = HermesLauncher::new("hermes", HermesLauncherConfig::from_json(&cfg));
    assert_eq!(l.command(), "/opt/bin/hermes");
}

#[test]
fn hermes_instance_id_round_trips_from_construction() {
    let l = HermesLauncher::new("hermes-local", HermesLauncherConfig::from_json(&obj(vec![])));
    assert_eq!(l.instance_id, "hermes-local");
}

#[test]
fn command_defaults_to_openclaw() {
    let l = OpenClawLauncher::new("openclaw", OpenClawLauncherConfig::from_json(&obj(vec![])));
    assert_eq!(l.command(), "openclaw");
}

#[test]
fn openclaw_command_uses_explicit_path_when_set() {
    let cfg = obj(vec![("command_path", s("/opt/bin/openclaw"))]);
    let l = OpenClawLauncher::new("openclaw", OpenClawLauncherConfig::from_json(&cfg));
    assert_eq!(l.command(), "/opt/bin/openclaw");
}

#[test]
fn openclaw_instance_id_round_trips_from_construction() {
    let l = OpenClawLauncher::new("openclaw-local", OpenClawLauncherConfig::from_json(&obj(vec![])));
    assert_eq!(l.instance_id, "openclaw-local");
}

#[test]
fn command_defaults_to_opencode() {
    let l = OpenCodeLauncher::new("opencode", OpenCodeLauncherConfig::from_json(&obj(vec![])));
    assert_eq!(l.command(), "opencode");
}

#[test]
fn opencode_command_uses_explicit_path_when_set() {
    let cfg = obj(vec![("command_path", s("/opt/bin/opencode"))]);
    let l = OpenCodeLauncher::new("opencode", OpenCodeLauncherConfig::from_json(&cfg));
    assert_eq!(l.command(), "/opt/bin/opencode");
}

#[test]
fn opencode_instance_id_round_trips_from_construction() {
    let l = OpenCodeLauncher::new("opencode-local", OpenCodeLauncherConfig::from_json(&obj(vec![])));
    assert_eq!(l.instance_id, "opencode-local");
}

#[test]
fn non_string_command_path_counts_as_unset() {
    let cfg = obj(vec![("command_path", JsonValue::Number("3".to_string()))]);
    let l = BobLauncher::new(BobLauncherConfig::from_json(&cfg));
    assert_eq!(l.command(), "bob");
}

// -- binding types ---------------------------------------------------------------

#[test]
fn unsupported_binding_types_are_reported() {
    let supported = vec![BindingType::AgentModel];
    assert!(check_binding_types(&supported, &vec![BindingType::AgentModel]).is_ok());
    let err = check_binding_types(&vec![], &vec![BindingType::AgentModel, BindingType::Mcp]).unwrap_err();
    assert_eq!(err, vec![BindingType::AgentModel, BindingType::Mcp]);
}

// -- environment overlays --------------------------------------------------------

#[test]
fn bob_env_overlay_is_empty() {
    let l = BobLauncher::new(BobLauncherConfig::from_json(&obj(vec![])));
    assert!(l.env_overlay().is_empty());
}

#[test]
fn goose_env_overlay_is_empty_without_a_binding() {
    let l = GooseLauncher::new("goose", GooseLauncherConfig::from_json(&obj(vec![])));
    assert!(l.env_overlay().is_empty());
}

#[test]
fn env_overlay_sets_goose_provider_and_model() {
    let mut l = GooseLauncher::new("goose", GooseLauncherConfig::from_json(&obj(vec![])));
    let mut b = binding();
    b.provider_name = "ollama".to_string();
    b.model_name = "mistral/mistral-large-v0.2".to_string();
    l.bind_agent_model(b);
    let overlay = l.env_overlay();
    assert_eq!(value_of(&overlay, "GOOSE_PROVIDER"), Some("ollama"));
    assert_eq!(value_of(&overlay, "GOOSE_MODEL"), Some("mistral/mistral-large-v0.2"));
}

#[test]
fn env_overlay_sets_openai_host_for_base_url() {
    let mut l = GooseLauncher::new("goose", GooseLauncherConfig::from_json(&obj(vec![])));
    l.bind_agent_model(binding());
    assert_eq!(value_of(&l.env_overlay(), "OPENAI_HOST"), Some("http://localhost:11434"));
}

#[test]
fn env_overlay_sets_goose_context_limit() {
    let mut l = GooseLauncher::new("goose", GooseLauncherConfig::from_json(&obj(vec![])));
    l.bind_agent_model(binding());
    assert_eq!(value_of(&l.env_overlay(), "GOOSE_CONTEXT_LIMIT"), Some("131072"));
}

#[test]
fn goose_env_overlay_skips_unknown_host_and_limit() {
    let mut l = GooseLauncher::new("goose", GooseLauncherConfig::from_json(&obj(vec![])));
    let mut b = binding();
    b.base_url = String::new();
    b.context_length = None;
    l.bind_agent_model(b);
    let overlay = l.env_overlay();
    assert_eq!(overlay.len(), 2);
    assert_eq!(value_of(&overlay, "OPENAI_HOST"), None);
}

#[test]
fn openclaw_env_overlay_is_empty_without_a_binding() {
    let l = OpenClawLauncher::new("openclaw", OpenClawLauncherConfig::from_json(&obj(vec![])));
    assert!(l.env_overlay("/state/openclaw.json").is_empty());
}

#[test]
fn env_overlay_sets_openclaw_config_path_when_bound() {
    let mut l = OpenClawLauncher::new("openclaw", OpenClawLauncherConfig::from_json(&obj(vec![])));
    l.bind_agent_model(binding());
    let overlay = l.env_overlay("/state/openclaw.json");
    assert_eq!(value_of(&overlay, "OPENCLAW_CONFIG_PATH"), Some("/state/openclaw.json"));
}

#[test]
fn env_overlay_sets_openclaw_provider_and_model() {
    let mut l = OpenClawLauncher::new("openclaw", OpenClawLauncherConfig::from_json(&obj(vec![])));
    l.bind_agent_model(binding());
    let overlay = l.env_overlay("/state/openclaw.json");
    assert_eq!(value_of(&overlay, "OPENCLAW_PROVIDER"), Some("my-ollama"));
    assert_eq!(value_of(&overlay, "OPENCLAW_MODEL"), Some("granite4.1:8b"));
}

#[test]
fn env_overlay_sets_openclaw_local_endpoint() {
    let mut l = OpenClawLauncher::new("openclaw", OpenClawLauncherConfig::from_json(&obj(vec![])));
    l.bind_agent_model(binding());
    let overlay = l.env_overlay("/state/openclaw.json");
    assert_eq!(value_of(&overlay, "OPENCLAW_LOCAL_ENDPOINT"), Some("http://localhost:11434"));
    assert_eq!(value_of(&overlay, "OPENCLAW_LOCAL_MODEL"), Some("granite4.1:8b"));
}

#[test]
fn env_overlay_sets_openclaw_max_tokens() {
    let mut l = OpenClawLauncher::new("openclaw", OpenClawLauncherConfig::from_json(&obj(vec![])));
    l.bind_agent_model(binding());
    let overlay = l.env_overlay("/state/openclaw.json");
    assert_eq!(value_of(&overlay, "OPENCLAW_MAX_TOKENS"), Some("131072"));
}

#[test]
fn hermes_env_overlay_is_empty_without_a_binding() {
    let l = HermesLauncher::new("hermes", HermesLauncherConfig::from_json(&obj(vec![])));
    assert!(l.env_overlay("/state/hermes").is_empty());
}

#[test]
fn env_overlay_sets_hermes_home_when_bound() {
    let mut l = HermesLauncher::new("hermes", HermesLauncherConfig::from_json(&obj(vec![])));
    l.bind_agent_model(binding());
    let overlay = l.env_overlay("/state/hermes");
    assert_eq!(value_of(&overlay, "HERMES_HOME"), Some("/state/hermes"));
}

#[test]
fn opencode_env_overlay_is_empty_without_a_binding() {
    let l = OpenCodeLauncher::new("opencode", OpenCodeLauncherConfig::from_json(&obj(vec![])));
    assert!(l.env_overlay("/state/opencode/opencode.json").is_empty());
}

#[test]
fn env_overlay_redirects_config_and_exports_api_key() {
    let mut l = OpenCodeLauncher::new("opencode", OpenCodeLauncherConfig::from_json(&obj(vec![])));
    l.bind_agent_model(with_key("sk-test"));
    let overlay = l.env_overlay("/home/u/launcher-state/opencode/opencode.json");
    assert!(value_of(&overlay, "OPENCODE_CONFIG").unwrap().ends_with("launcher-state/opencode/opencode.json"));
    assert_eq!(value_of(&overlay, "GRANITE_CLI_OPENCODE_API_KEY"), Some("sk-test"));
}

#[test]
fn env_overlay_omits_api_key_when_provider_has_none() {
    let mut l = OpenCodeLauncher::new("opencode", OpenCodeLauncherConfig::from_json(&obj(vec![])));
    l.bind_agent_model(binding());
    let overlay = l.env_overlay("/state/opencode/opencode.json");
    assert!(!overlay.iter().any(|b| b.key == "GRANITE_CLI_OPENCODE_API_KEY"));
}

// -- hermes config ---------------------------------------------------------------

#[test]
fn generate_config_sets_provider_and_model() {
    let l = HermesLauncher::new("hermes", HermesLauncherConfig::from_json(&obj(vec![])));
    let config = l.generate_config(&binding());
    assert_eq!(str_at(&config, &["model", "provider"]), Some("my-ollama"));
    assert_eq!(str_at(&config, &["model", "model"]), Some("granite4.1:8b"));
    assert_eq!(str_at(&config, &["model", "base_url"]), Some("http://localhost:11434"));
    assert_eq!(number_at(&config, &["model", "context_length"]), Some("131072".to_string()));
}

#[test]
fn generate_config_omits_context_length_when_none() {
    let mut b = binding();
    b.context_length = None;
    let l = HermesLauncher::new("hermes", HermesLauncherConfig::from_json(&obj(vec![])));
    let config = l.generate_config(&b);
    assert!(at(&config, &["model", "context_length"]).is_none());
}

#[test]
fn generate_config_merges_overrides() {
    let cfg = obj(vec![(
        "model_overrides",
        obj(vec![("model", obj(vec![("context_length", JsonValue::Number("4000".to_string()))]))]),
    )]);
    let l = HermesLauncher::new("hermes", HermesLauncherConfig::from_json(&cfg));
    let config = l.generate_config(&binding());
    assert_eq!(number_at(&config, &["model", "context_length"]), Some("4000".to_string()));
    assert_eq!(str_at(&config, &["model", "provider"]), Some("my-ollama"));
    assert_eq!(str_at(&config, &["model", "model"]), Some("granite4.1:8b"));
}

#[test]
fn hermes_top_level_overrides_are_set_beside_the_model() {
    let cfg = obj(vec![("model_overrides", obj(vec![("terminal", obj(vec![("backend", s("local"))]))]))]);
    let l = HermesLauncher::new("hermes", HermesLauncherConfig::from_json(&cfg));
    let config = l.generate_config(&binding());
    assert_eq!(str_at(&config, &["terminal", "backend"]), Some("local"));
    assert_eq!(str_at(&config, &["model", "provider"]), Some("my-ollama"));
}

// -- opencode config -------------------------------------------------------------

#[test]
fn base_url_keeps_version_prefix_and_drops_operation() {
    assert_eq!(opencode_base_url(&binding()), "http://localhost:11434/v1");
}

#[test]
fn base_url_trims_trailing_slash_from_provider_url() {
    let mut b = binding();
    b.base_url = "http://localhost:1234/".to_string();
    assert_eq!(opencode_base_url(&b), "http://localhost:1234/v1");
}

#[test]
fn base_url_without_chat_operation_is_the_provider_url() {
    let mut b = binding();
    b.endpoint_path = "/api/generate".to_string();
    assert_eq!(opencode_base_url(&b), "http://localhost:11434");
}

#[test]
fn provider_entry_describes_bound_model() {
    let l = OpenCodeLauncher::new("opencode", OpenCodeLauncherConfig::from_json(&obj(vec![])));
    let entry = l.provider_entry(&binding());
    assert_eq!(str_at(&entry, &["npm"]), Some("@ai-sdk/openai-compatible"));
    assert_eq!(str_at(&entry, &["options", "baseURL"]), Some("http://localhost:11434/v1"));
    assert_eq!(str_at(&entry, &["models", "granite4.1:8b", "name"]), Some("granite4.1:8b"));
    assert!(at(&entry, &["models", "granite4.1:8b", "limit"]).is_none());
    assert!(at(&entry, &["options", "apiKey"]).is_none());
}

#[test]
fn provider_entry_interpolates_env_when_key_present() {
    let l = OpenCodeLauncher::new("opencode", OpenCodeLauncherConfig::from_json(&obj(vec![])));
    let entry = l.provider_entry(&with_key("sk-test"));
    assert_eq!(str_at(&entry, &["options", "apiKey"]), Some("{env:GRANITE_CLI_OPENCODE_API_KEY}"));
}

#[test]
fn provider_entry_omits_api_key_for_empty_secret() {
    let l = OpenCodeLauncher::new("opencode", OpenCodeLauncherConfig::from_json(&obj(vec![])));
    let entry = l.provider_entry(&with_key(""));
    assert!(at(&entry, &["options", "apiKey"]).is_none());
}

#[test]
fn provider_entry_merges_overrides() {
    let cfg = obj(vec![("provider_overrides", obj(vec![("headers", obj(vec![("X-Custom", s("1"))]))]))]);
    let l = OpenCodeLauncher::new("opencode", OpenCodeLauncherConfig::from_json(&cfg));
    let entry = l.provider_entry(&binding());
    assert_eq!(str_at(&entry, &["headers", "X-Custom"]), Some("1"));
    assert_eq!(str_at(&entry, &["options", "baseURL"]), Some("http://localhost:11434/v1"));
}

#[test]
fn provider_entry_overrides_win_on_conflict() {
    let cfg = obj(vec![("provider_overrides", obj(vec![("npm", s("@ai-sdk/openai"))]))]);
    let l = OpenCodeLauncher::new("opencode", OpenCodeLauncherConfig::from_json(&cfg));
    let entry = l.provider_entry(&binding());
    assert_eq!(str_at(&entry, &["npm"]), Some("@ai-sdk/openai"));
}

#[test]
fn generate_config_nests_entry_under_provider_name_and_sets_default_model() {
    let entry = obj(vec![("npm", s("@ai-sdk/openai-compatible"))]);
    let config = generate_config(Some(&binding()), Some(entry));
    assert_eq!(str_at(&config, &["$schema"]), Some("https://opencode.ai/config.json"));
    assert_eq!(str_at(&config, &["model"]), Some("my-ollama/granite4.1:8b"));
    assert_eq!(str_at(&config, &["provider", "my-ollama", "npm"]), Some("@ai-sdk/openai-compatible"));
}

#[test]
fn generate_config_without_a_binding_has_only_the_schema() {
    let config = generate_config(None, None);
    assert!(at(&config, &["model"]).is_none());
    assert_eq!(str_at(&config, &["$schema"]), Some("https://opencode.ai/config.json"));
}
