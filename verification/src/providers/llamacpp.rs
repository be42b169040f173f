//! Settings and capabilities of a local llama.cpp server.
use vstd::prelude::*;

use crate::models::base::ModelFunction;
use crate::providers::base::ApiEndpoint;
use crate::providers::base::ApiSurface;
use crate::providers::base::ApiType;
use crate::providers::base::AuthType;
use crate::providers::base::ModelFormat;
use crate::providers::base::ProviderMetadata;
use crate::providers::base::ProviderType;
use crate::text::string_views;
use crate::registry::secret::Secret;
use crate::text::eq_ignore_ascii_case;
use crate::text::str_eq_ignore_ascii_case;

verus! {

/// Configuration of a llama.cpp provider instance.
pub struct LlamaCppProviderConfig {
    /// Base URL of the server.
    pub base_url: String,
    /// API key for authentication (optional).
    pub api_key: Option<Secret>,
    /// Timeout for health checks, in seconds.
    pub timeout_secs: u64,
    /// Whether to verify SSL certificates.
    pub verify_ssl: bool,
    /// Endpoint used for health checks.
    pub health_check_endpoint: String,
}

/// Base URL used when none is configured.
pub fn default_llamacpp_url() -> (s: String)
    ensures
        s@ == "http://localhost:8080"@,
{
    "http://localhost:8080".to_string()
}

/// Health-check timeout used when none is configured.
pub fn default_timeout() -> (t: u64)
    ensures
        t == 10,
{
    10
}

/// Certificates are verified unless configured otherwise.
pub fn default_verify_ssl() -> (b: bool)
    ensures
        b,
{
    true
}

/// Health-check endpoint used when none is configured.
pub fn default_llamacpp_health_endpoint() -> (s: String)
    ensures
        s@ == "/health"@,
{
    "/health".to_string()
}

impl Default for LlamaCppProviderConfig {
    fn default() -> (c: Self)
        ensures
            c.base_url@ == "http://localhost:8080"@,
            c.api_key is None,
            c.timeout_secs == 10,
            c.verify_ssl,
            c.health_check_endpoint@ == "/health"@,
    {
        LlamaCppProviderConfig {
            base_url: default_llamacpp_url(),
            api_key: None,
            timeout_secs: default_timeout(),
            verify_ssl: default_verify_ssl(),
            health_check_endpoint: default_llamacpp_health_endpoint(),
        }
    }
}

/// A configured llama.cpp provider.
pub struct LlamaCppProvider {
    pub config: LlamaCppProviderConfig,
}

impl LlamaCppProvider {

    /// The catalog entry of the provider type.
    pub fn metadata() -> (m: ProviderMetadata)
        ensures
            m.id@ == "llamacpp"@,
            m.name@ == "llama.cpp"@,
            m.description@ == "High-performance local inference server for GGUF models with OpenAI and Anthropic API compatibility"@,
            m.provider_type == ProviderType::Local,
            m.default_endpoint@ == "http://localhost:8080"@,
            m.api_capabilities@ == seq![ApiSurface::OpenAIChat, ApiSurface::AnthropicMessages],
            m.supported_formats@ == seq![ModelFormat::GGUF],
            m.supported_precisions@.len() == 0,
            m.authentication@ == seq![AuthType::NoAuth, AuthType::BearerToken],
            string_views(m.tags@) == seq!["llama.cpp"@, "local"@, "gguf"@, "high-performance"@],
    {
        let surfaces = vec![ApiSurface::OpenAIChat, ApiSurface::AnthropicMessages];
        let formats = vec![ModelFormat::GGUF];
        let auth = vec![AuthType::NoAuth, AuthType::BearerToken];
        let tags = crate::text::strings4("llama.cpp", "local", "gguf", "high-performance");
        assert(surfaces@ =~= seq![ApiSurface::OpenAIChat, ApiSurface::AnthropicMessages]);
        assert(formats@ =~= seq![ModelFormat::GGUF]);
        assert(auth@ =~= seq![AuthType::NoAuth, AuthType::BearerToken]);
        ProviderMetadata {
            id: "llamacpp".to_string(),
            name: "llama.cpp".to_string(),
            description: "High-performance local inference server for GGUF models with OpenAI and Anthropic API compatibility".to_string(),
            provider_type: ProviderType::Local,
            default_endpoint: "http://localhost:8080".to_string(),
            api_capabilities: surfaces,
            supported_formats: formats,
            supported_precisions: Vec::new(),
            authentication: auth,
            tags,
        }
    }
    /// A provider with the given settings.
    pub fn new(config: LlamaCppProviderConfig) -> (p: Self)
        ensures
            p.config == config,
    {
        LlamaCppProvider { config }
    }

    /// Display name of the provider.
    pub fn name(&self) -> (s: String)
        ensures
            s@ == "llama.cpp"@,
    {
        "llama.cpp".to_string()
    }

    /// One-line description of the provider.
    pub fn description() -> (s: String)
        ensures
            s@ == "High-performance local inference server for GGUF models with OpenAI and Anthropic API compatibility"@,
    {
        "High-performance local inference server for GGUF models with OpenAI and Anthropic API compatibility".to_string()
    }

    /// The API dialects the server speaks.
    pub fn supported_api_types(&self) -> (v: Vec<ApiType>)
        ensures
            v@ == seq![ApiType::OpenAI, ApiType::Anthropic],
    {
        vec![ApiType::OpenAI, ApiType::Anthropic]
    }

    /// The endpoints serving `function`, in order of preference.
    pub fn endpoints_for_function(&self, function: ModelFunction) -> (v: Vec<ApiEndpoint>)
        ensures
            v@ == (match function {
                ModelFunction::Chat => seq![ApiEndpoint::OpenAIChat, ApiEndpoint::AnthropicMessages],
                ModelFunction::Embeddings => seq![ApiEndpoint::OpenAIEmbeddings],
                _ => Seq::<ApiEndpoint>::empty(),
            }),
    {
        match function {
            ModelFunction::Chat => vec![ApiEndpoint::OpenAIChat, ApiEndpoint::AnthropicMessages],
            ModelFunction::Embeddings => vec![ApiEndpoint::OpenAIEmbeddings],
            _ => Vec::new(),
        }
    }

    /// Whether the server can run a variant: it serves GGUF models only.
    pub fn can_run_model(&self, variant_format: &str, variant_precision: &str) -> (b: bool)
        ensures
            b == eq_ignore_ascii_case(variant_format@, "gguf"@),
    {
        str_eq_ignore_ascii_case(variant_format, "gguf")
    }
}

} // verus!
