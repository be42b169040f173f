//! Provider metadata and the vocabulary shared by providers.
use vstd::prelude::*;

verus! {

/// API surfaces that providers can support.
#[derive(PartialEq, Eq, Structural, Clone, Copy, Debug)]
pub enum ApiSurface {
    /// `/v1/chat/completions`
    OpenAIChat,
    /// `/api/chat`
    OllamaChat,
    /// `/v1/messages`
    AnthropicMessages,
}

impl ApiSurface {
    /// Human-readable name of the surface.
    pub open spec fn display_spec(self) -> Seq<char> {
        match self {
            ApiSurface::OpenAIChat => "OpenAI Chat (/v1/chat/completions)"@,
            ApiSurface::OllamaChat => "Ollama Chat (/api/chat)"@,
            ApiSurface::AnthropicMessages => "Anthropic Messages (/v1/messages)"@,
        }
    }

    /// Human-readable name of the surface.
    pub fn display(&self) -> (s: String)
        ensures
            s@ == self.display_spec(),
    {
        match self {
            ApiSurface::OpenAIChat => "OpenAI Chat (/v1/chat/completions)".to_string(),
            ApiSurface::OllamaChat => "Ollama Chat (/api/chat)".to_string(),
            ApiSurface::AnthropicMessages => "Anthropic Messages (/v1/messages)".to_string(),
        }
    }
}

/// API dialects a provider can speak.
#[derive(PartialEq, Eq, Structural, Clone, Copy, Debug)]
pub enum ApiType {
    OpenAI,
    Ollama,
    Anthropic,
}

impl ApiType {
    /// Name of the dialect.
    pub open spec fn display_spec(self) -> Seq<char> {
        match self {
            ApiType::OpenAI => "OpenAI"@,
            ApiType::Ollama => "Ollama"@,
            ApiType::Anthropic => "Anthropic"@,
        }
    }

    /// Name of the dialect.
    pub fn display(&self) -> (s: String)
        ensures
            s@ == self.display_spec(),
    {
        match self {
            ApiType::OpenAI => "OpenAI".to_string(),
            ApiType::Ollama => "Ollama".to_string(),
            ApiType::Anthropic => "Anthropic".to_string(),
        }
    }
}

/// A concrete endpoint of a provider's API.
#[derive(PartialEq, Eq, Structural, Clone, Copy, Debug)]
pub enum ApiEndpoint {
    OpenAIChat,
    OllamaChat,
    AnthropicMessages,
    OpenAIEmbeddings,
    OllamaEmbeddings,
}

impl ApiEndpoint {
    /// The dialect the endpoint belongs to.
    pub open spec fn api_type_spec(self) -> ApiType {
        match self {
            ApiEndpoint::OpenAIChat | ApiEndpoint::OpenAIEmbeddings => ApiType::OpenAI,
            ApiEndpoint::OllamaChat | ApiEndpoint::OllamaEmbeddings => ApiType::Ollama,
            ApiEndpoint::AnthropicMessages => ApiType::Anthropic,
        }
    }

    /// The dialect the endpoint belongs to.
    pub fn api_type(&self) -> (t: ApiType)
        ensures
            t == self.api_type_spec(),
    {
        match self {
            ApiEndpoint::OpenAIChat | ApiEndpoint::OpenAIEmbeddings => ApiType::OpenAI,
            ApiEndpoint::OllamaChat | ApiEndpoint::OllamaEmbeddings => ApiType::Ollama,
            ApiEndpoint::AnthropicMessages => ApiType::Anthropic,
        }
    }

    /// The request path of the endpoint.
    pub open spec fn path_spec(self) -> Seq<char> {
        match self {
            ApiEndpoint::OpenAIChat => "/v1/chat/completions"@,
            ApiEndpoint::OllamaChat => "/api/chat"@,
            ApiEndpoint::AnthropicMessages => "/v1/messages"@,
            ApiEndpoint::OpenAIEmbeddings => "/v1/embeddings"@,
            ApiEndpoint::OllamaEmbeddings => "/api/embed"@,
        }
    }

    /// The request path of the endpoint.
    pub fn path(&self) -> (s: String)
        ensures
            s@ == self.path_spec(),
    {
        match self {
            ApiEndpoint::OpenAIChat => "/v1/chat/completions".to_string(),
            ApiEndpoint::OllamaChat => "/api/chat".to_string(),
            ApiEndpoint::AnthropicMessages => "/v1/messages".to_string(),
            ApiEndpoint::OpenAIEmbeddings => "/v1/embeddings".to_string(),
            ApiEndpoint::OllamaEmbeddings => "/api/embed".to_string(),
        }
    }
}

/// Model formats that providers can serve.
#[derive(PartialEq, Eq, Structural, Clone, Copy, Debug)]
pub enum ModelFormat {
    Safetensors,
    GGUF,
    ONNX,
}

impl ModelFormat {
    /// Name of the format as it appears in model variants.
    pub open spec fn display_spec(self) -> Seq<char> {
        match self {
            ModelFormat::Safetensors => "safetensors"@,
            ModelFormat::GGUF => "GGUF"@,
            ModelFormat::ONNX => "ONNX"@,
        }
    }

    /// Name of the format as it appears in model variants.
    pub fn display(&self) -> (s: String)
        ensures
            s@ == self.display_spec(),
    {
        match self {
            ModelFormat::Safetensors => "safetensors".to_string(),
            ModelFormat::GGUF => "GGUF".to_string(),
            ModelFormat::ONNX => "ONNX".to_string(),
        }
    }
}

/// Numeric precisions of model weights.
#[allow(non_camel_case_types)]
#[derive(PartialEq, Eq, Structural, Clone, Copy, Debug)]
pub enum Precision {
    BF16,
    FP16,
    FP32,
    Q8_0,
    Q4_K_M,
    Q5_K_M,
    Q3_K_M,
}

impl Precision {
    /// Name of the precision as it appears in model variants.
    pub open spec fn display_spec(self) -> Seq<char> {
        match self {
            Precision::BF16 => "BF16"@,
            Precision::FP16 => "FP16"@,
            Precision::FP32 => "FP32"@,
            Precision::Q8_0 => "Q8_0"@,
            Precision::Q4_K_M => "Q4_K_M"@,
            Precision::Q5_K_M => "Q5_K_M"@,
            Precision::Q3_K_M => "Q3_K_M"@,
        }
    }

    /// Name of the precision as it appears in model variants.
    pub fn display(&self) -> (s: String)
        ensures
            s@ == self.display_spec(),
    {
        match self {
            Precision::BF16 => "BF16".to_string(),
            Precision::FP16 => "FP16".to_string(),
            Precision::FP32 => "FP32".to_string(),
            Precision::Q8_0 => "Q8_0".to_string(),
            Precision::Q4_K_M => "Q4_K_M".to_string(),
            Precision::Q5_K_M => "Q5_K_M".to_string(),
            Precision::Q3_K_M => "Q3_K_M".to_string(),
        }
    }
}

/// Whether a provider runs remotely or on this machine.
#[derive(PartialEq, Eq, Structural, Clone, Copy, Debug)]
pub enum ProviderType {
    Hosted,
    Local,
}

impl ProviderType {
    /// Name of the provider type.
    pub open spec fn display_spec(self) -> Seq<char> {
        match self {
            ProviderType::Hosted => "Hosted"@,
            ProviderType::Local => "Local"@,
        }
    }

    /// Name of the provider type.
    pub fn display(&self) -> (s: String)
        ensures
            s@ == self.display_spec(),
    {
        match self {
            ProviderType::Hosted => "Hosted".to_string(),
            ProviderType::Local => "Local".to_string(),
        }
    }
}

/// How a provider authenticates requests.
#[derive(PartialEq, Eq, Structural, Clone, Copy, Debug)]
pub enum AuthType {
    ApiKey,
    BearerToken,
    NoAuth,
}

impl AuthType {
    /// Name of the authentication scheme.
    pub open spec fn display_spec(self) -> Seq<char> {
        match self {
            AuthType::ApiKey => "API Key"@,
            AuthType::BearerToken => "Bearer Token"@,
            AuthType::NoAuth => "None"@,
        }
    }

    /// Name of the authentication scheme.
    pub fn display(&self) -> (s: String)
        ensures
            s@ == self.display_spec(),
    {
        match self {
            AuthType::ApiKey => "API Key".to_string(),
            AuthType::BearerToken => "Bearer Token".to_string(),
            AuthType::NoAuth => "None".to_string(),
        }
    }
}

/// Metadata describing a provider implementation.
pub struct ProviderMetadata {
    pub id: String,
    pub name: String,
    pub description: String,
    pub provider_type: ProviderType,
    pub default_endpoint: String,
    pub api_capabilities: Vec<ApiSurface>,
    pub supported_formats: Vec<ModelFormat>,
    pub supported_precisions: Vec<String>,
    pub authentication: Vec<AuthType>,
    pub tags: Vec<String>,
}

/// Result of a provider health check; the latency is in milliseconds.
pub struct HealthStatus {
    pub healthy: bool,
    pub latency_ms: u64,
    pub error: Option<String>,
}

} // verus!
