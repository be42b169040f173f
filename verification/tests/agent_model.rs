use granite_cli::capabilities::agent_model::read_model_id;
use granite_cli::capabilities::AgentModelCapability;
use granite_cli::capabilities::BindingRequest;
use granite_cli::capabilities::BindingType;
use granite_cli::capabilities::Dependency;
use granite_cli::capabilities::ProviderConnection;
use granite_cli::json::JsonValue;
use granite_cli::models::ModelFunction;
use granite_cli::providers::ApiEndpoint;
use granite_cli::providers::ApiType;
use granite_cli::registry::secret::Secret;

fn provider(api_types: Vec<ApiType>, chat_endpoints: Vec<ApiEndpoint>) -> ProviderConnection {
    ProviderConnection {
        provider_name: "my-ollama".to_string(),
        base_url: "http://localhost:11434".to_string(),
        api_key: None,
        verify_ssl: true,
        api_types,
        chat_endpoints,
    }
}

fn capability_with_model(functions: Vec<ModelFunction>, p: ProviderConnection) -> AgentModelCapability {
    AgentModelCapability {
        model_id: "granite-3.1-8b-instruct".to_string(),
        model_functions: functions,
        context_length: Some(8192),
        provider: Ok(p),
    }
}

fn request(api_type: ApiType) -> BindingRequest {
    BindingRequest::AgentModel { api_type }
}

#[test]
fn bind_succeeds_for_matching_provider_and_model() {
    let cap = capability_with_model(
        vec![ModelFunction::Chat],
        provider(vec![ApiType::OpenAI], vec![ApiEndpoint::OpenAIChat]),
    );
    let binding = cap.bind(request(ApiType::OpenAI)).unwrap();
    assert_eq!(binding.base_url, "http://localhost:11434");
    assert_eq!(binding.model_name, "granite-3.1-8b-instruct");
    assert_eq!(binding.endpoint_path, "/v1/chat/completions");
    assert_eq!(binding.api_type, ApiType::OpenAI);
    assert!(binding.verify_ssl);
    assert_eq!(binding.context_length, Some(8192));
    assert!(binding.api_key.is_none());
}

#[test]
fn bind_fails_when_model_has_no_provider() {
    let cap = capability_with_model(vec![ModelFunction::Chat], provider(vec![ApiType::OpenAI], vec![]));
    let err = cap.bind(request(ApiType::OpenAI)).err().unwrap();
    assert!(err.contains("does not support"));
}

#[test]
fn bind_fails_when_provider_lacks_api_type() {
    let cap = capability_with_model(
        vec![ModelFunction::Chat],
        provider(vec![ApiType::Ollama], vec![ApiEndpoint::OllamaChat]),
    );
    let err = cap.bind(request(ApiType::OpenAI)).err().unwrap();
    assert!(err.contains("does not support"));
    assert_eq!(err, "provider for model 'granite-3.1-8b-instruct' does not support OpenAI");
}

#[test]
fn bind_fails_when_model_lacks_function() {
    let cap = capability_with_model(
        vec![ModelFunction::Embeddings],
        provider(vec![ApiType::OpenAI], vec![ApiEndpoint::OpenAIChat]),
    );
    let err = cap.bind(request(ApiType::OpenAI)).err().unwrap();
    assert!(err.contains("does not support"));
    assert_eq!(err, "model 'granite-3.1-8b-instruct' does not support Chat");
}

#[test]
fn bind_fails_when_no_matching_endpoint() {
    let cap = capability_with_model(
        vec![ModelFunction::Chat],
        provider(vec![ApiType::OpenAI, ApiType::Ollama], vec![ApiEndpoint::OllamaChat]),
    );
    let err = cap.bind(request(ApiType::OpenAI)).err().unwrap();
    assert!(err.contains("no OpenAI endpoint for Chat"));
}

#[test]
fn bind_reports_an_unusable_provider() {
    let cap = AgentModelCapability {
        model_id: "m".to_string(),
        model_functions: vec![ModelFunction::Chat],
        context_length: None,
        provider: Err("no provider configured".to_string()),
    };
    assert_eq!(cap.bind(request(ApiType::Ollama)).err().unwrap(), "model 'm' has no usable provider: no provider configured");
}

#[test]
fn bind_takes_the_first_endpoint_of_the_dialect_and_copies_the_key() {
    let mut p = provider(
        vec![ApiType::OpenAI, ApiType::Ollama],
        vec![ApiEndpoint::OpenAIChat, ApiEndpoint::OllamaChat],
    );
    p.api_key = Some(Secret::from_str_value("sk-1"));
    p.verify_ssl = false;
    let cap = capability_with_model(vec![ModelFunction::ToolCalling, ModelFunction::Chat], p);
    let binding = cap.bind(request(ApiType::Ollama)).unwrap();
    assert_eq!(binding.endpoint_path, "/api/chat");
    assert_eq!(binding.api_key.unwrap().0, "sk-1");
    assert!(!binding.verify_ssl);
    assert_eq!(binding.provider_name, "my-ollama");
}

#[test]
fn binding_types_reports_agent_model() {
    let cap = capability_with_model(vec![], provider(vec![], vec![]));
    assert_eq!(cap.binding_types(), vec![BindingType::AgentModel]);
}

#[test]
fn dependencies_carry_resolved_model_id() {
    let cap = capability_with_model(vec![], provider(vec![], vec![]));
    let deps = cap.dependencies();
    assert_eq!(deps.len(), 1);
    assert!(deps.iter().any(|d| matches!(d, Dependency::Model { id, .. } if id == "granite-3.1-8b-instruct")));
}

#[test]
fn metadata_reports_supported_binding_types() {
    let meta = AgentModelCapability::metadata();
    assert_eq!(meta.binding_types, vec![BindingType::AgentModel]);
    assert_eq!(meta.name, "Agent Model Binding");
}

#[test]
fn model_id_is_read_from_settings() {
    let cfg = JsonValue::Object(vec![(
        "model_id".to_string(),
        JsonValue::Str("granite-3.1-8b-instruct".to_string()),
    )]);
    assert_eq!(read_model_id(&cfg), "granite-3.1-8b-instruct");
    assert_eq!(read_model_id(&JsonValue::Object(vec![])), "");
}
