//! The catalog entry of OpenAI-compatible hosted providers.
use vstd::prelude::*;

use crate::providers::base::ApiSurface;
use crate::providers::base::AuthType;
use crate::providers::base::ModelFormat;
use crate::providers::base::ProviderMetadata;
use crate::providers::base::ProviderType;
use crate::text::string_views;

verus! {

/// A hosted provider that speaks the OpenAI chat-completions protocol.
pub struct OpenAiCompatProvider;

impl OpenAiCompatProvider {
    /// The catalog entry of the provider type.
    pub fn metadata() -> (m: ProviderMetadata)
        ensures
            m.id@ == "openai"@,
            m.name@ == "OpenAI"@,
            m.description@ == "OpenAI API with GPT-4, GPT-3.5, and other models."@,
            m.provider_type == ProviderType::Hosted,
            m.default_endpoint@ == "https://api.openai.com"@,
            m.api_capabilities@ == seq![ApiSurface::OpenAIChat],
            m.supported_formats@ == seq![ModelFormat::Safetensors],
            string_views(m.supported_precisions@) == seq!["BF16"@, "FP16"@],
            m.authentication@ == seq![AuthType::ApiKey],
            string_views(m.tags@) == seq!["openai"@, "gpt"@, "hosted"@],
    {
        let surfaces = vec![ApiSurface::OpenAIChat];
        let formats = vec![ModelFormat::Safetensors];
        let auth = vec![AuthType::ApiKey];
        let precisions = crate::text::strings2("BF16", "FP16");
        let tags = crate::text::strings3("openai", "gpt", "hosted");
        assert(surfaces@ =~= seq![ApiSurface::OpenAIChat]);
        assert(formats@ =~= seq![ModelFormat::Safetensors]);
        assert(auth@ =~= seq![AuthType::ApiKey]);
        ProviderMetadata {
            id: "openai".to_string(),
            name: "OpenAI".to_string(),
            description: "OpenAI API with GPT-4, GPT-3.5, and other models.".to_string(),
            provider_type: ProviderType::Hosted,
            default_endpoint: "https://api.openai.com".to_string(),
            api_capabilities: surfaces,
            supported_formats: formats,
            supported_precisions: precisions,
            authentication: auth,
            tags,
        }
    }
}

} // verus!
