use granite_cli::providers::llamacpp::LlamaCppProviderConfig;
use granite_cli::providers::ollama::OllamaProviderConfig;

#[test]
fn ollama_test_default_config() {
    let config = OllamaProviderConfig::default();
    assert_eq!(config.base_url, "http://localhost:11434");
    assert!(config.api_key.is_none());
    assert_eq!(config.timeout_secs, 10);
    assert!(config.verify_ssl);
    assert_eq!(config.health_check_endpoint, "/api/tags");
}

#[test]
fn llamacpp_test_default_config() {
    let config = LlamaCppProviderConfig::default();
    assert_eq!(config.base_url, "http://localhost:8080");
    assert!(config.api_key.is_none());
    assert_eq!(config.timeout_secs, 10);
    assert!(config.verify_ssl);
    assert_eq!(config.health_check_endpoint, "/health");
}
