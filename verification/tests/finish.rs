use granite_cli::commands::discovery::Recommendation;
use granite_cli::commands::finish::find_provider_for_model;
use granite_cli::commands::finish::pull_item;
use granite_cli::commands::finish::pullable_models;
use granite_cli::commands::finish::summary_messages;
use granite_cli::config::Config;
use granite_cli::config::ModelConfig;
use granite_cli::config::ProviderConfig;
use granite_cli::config::ShellConfig;
use granite_cli::json::JsonValue;
use granite_cli::models::ContextFit;
use granite_cli::models::ModelType;
use granite_cli::models::ModelVariant;

fn model_rec(id: &str, runners: &[&str]) -> Recommendation {
    Recommendation::Model {
        model_id: id.to_string(),
        family: "Granite".to_string(),
        version: "3.1".to_string(),
        size: "8B".to_string(),
        model_type: ModelType::Text,
        best_variant: ModelVariant {
            format: "GGUF".to_string(),
            precision: "Q4_K_M".to_string(),
            size_decigb: 49,
            url: String::new(),
        },
        context_fit: ContextFit::Full,
        can_run_by: runners.iter().map(|r| r.to_string()).collect(),
    }
}

fn strings(v: &[&str]) -> Vec<String> {
    v.iter().map(|s| s.to_string()).collect()
}

fn empty_config() -> Config {
    Config::new(ShellConfig {
        shell: "bash".to_string(),
        export_file: "/home/user/.bashrc".to_string(),
        export_format: "export {VAR}=\"{VALUE}\"".to_string(),
    })
}

#[test]
fn provider_for_model_prefers_a_selected_runner() {
    let recs = vec![
        Recommendation::Capability { capability_type: "agent-model".to_string(), capability_name: "x".to_string() },
        model_rec("granite-8b", &["llamacpp", "ollama"]),
    ];
    let selected = strings(&["ollama"]);
    assert_eq!(find_provider_for_model("granite-8b", &selected, &recs).as_deref(), Some("ollama"));
    let both = strings(&["ollama", "llamacpp"]);
    assert_eq!(find_provider_for_model("granite-8b", &both, &recs).as_deref(), Some("llamacpp"));
}

#[test]
fn provider_for_model_skips_recommendations_without_a_selected_runner() {
    let recs = vec![model_rec("granite-8b", &["vllm"]), model_rec("granite-8b", &["ollama"])];
    let selected = strings(&["ollama"]);
    assert_eq!(find_provider_for_model("granite-8b", &selected, &recs).as_deref(), Some("ollama"));
    assert_eq!(find_provider_for_model("granite-2b", &selected, &recs), None);
    assert_eq!(find_provider_for_model("granite-8b", &strings(&["x"]), &recs), None);
}

#[test]
fn pullable_models_need_a_configured_provider() {
    let mut c = empty_config();
    c.insert_provider(
        "local",
        ProviderConfig {
            provider_id: "local".to_string(),
            provider_type: "ollama".to_string(),
            config: JsonValue::Object(Vec::new()),
            enabled: true,
        },
    );
    for (id, provider) in [("a", Some("local")), ("b", None), ("c", Some("gone"))] {
        c.insert_model(
            id,
            ModelConfig {
                model_id: id.to_string(),
                provider_id: provider.map(|p| p.to_string()),
                variant: None,
                enabled: true,
            },
        );
    }
    let r = pullable_models(&c, &strings(&["c", "b", "a", "unknown"]));
    assert_eq!(r.len(), 1);
    assert_eq!(r[0].model_id, "a");
    assert_eq!(r[0].provider_id, "local");
    assert_eq!(r[0].provider_type, "ollama");
    assert_eq!(pull_item(&r[0]), "local → a (ollama)");
}

#[test]
fn summary_names_every_selection_or_none() {
    let msgs = summary_messages(&strings(&[]), &strings(&["goose", "hermes"]), &strings(&["ollama"]), &strings(&[]));
    assert_eq!(
        msgs,
        strings(&[
            "\n=== Setup Complete ===",
            "Providers: ollama",
            "Models: none",
            "Launchers: goose, hermes",
            "Capabilities: none",
            "\nRun `granite-cli launcher list` to see configured launchers.",
            "Run `granite-cli launch goose` to launch with Granite overlay.",
        ])
    );
    let quiet = summary_messages(&strings(&[]), &strings(&[]), &strings(&[]), &strings(&[]));
    assert_eq!(quiet.len(), 6);
    assert_eq!(quiet[3], "Launchers: none");
}
