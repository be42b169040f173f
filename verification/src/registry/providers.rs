//! The bundled catalog of provider services.
use vstd::prelude::*;

pub use crate::providers::base::AuthType;
pub use crate::providers::base::ProviderType;
pub use crate::registry::Registry;

use crate::providers::base::ApiSurface;
use crate::providers::base::ModelFormat;
use crate::providers::base::Precision;
use crate::registry::find_entry;
use crate::registry::has_key;
use crate::registry::is_first_with_key;
use crate::registry::list_entries;
use crate::registry::matching_entries;
use crate::registry::search_entries;
use crate::registry::CatalogEntry;
use crate::text::join2;
use crate::text::strings2;
use crate::text::strings3;
use crate::text::strings4;
use crate::text::string_views;
use crate::text::str_views;
use crate::text::deref_seq;

verus! {

broadcast use crate::text::group_views;

/// A provider service the catalog knows about.
pub struct ProviderDefinition {
    pub id: String,
    pub name: String,
    pub description: String,
    pub provider_type: ProviderType,
    pub default_endpoint: String,
    pub api_capabilities: Vec<ApiSurface>,
    pub supported_formats: Vec<ModelFormat>,
    pub supported_precisions: Vec<Precision>,
    pub authentication: Vec<AuthType>,
    pub tags: Vec<String>,
}

impl CatalogEntry for ProviderDefinition {
    open spec fn key_view(&self) -> Seq<char> {
        self.id@
    }

    open spec fn search_fields(&self) -> Seq<Seq<char>> {
        seq![self.id@, self.name@, self.description@] + string_views(self.tags@)
    }

    fn key(&self) -> (k: &str) {
        self.id.as_str()
    }

    fn fields(&self) -> (v: Vec<&str>) {
        let mut v: Vec<&str> = Vec::new();
        v.push(self.id.as_str());
        v.push(self.name.as_str());
        v.push(self.description.as_str());
        let mut i: usize = 0;
        while i < self.tags.len()
            invariant
                i <= self.tags@.len(),
                v@.len() == 3 + i,
                forall|k: int|
                    0 <= k < v@.len() ==> #[trigger] v@[k]@ == (seq![self.id@, self.name@, self.description@]
                        + string_views(self.tags@))[k],
            decreases self.tags@.len() - i,
        {
            v.push(self.tags[i].as_str());
            i += 1;
        }
        v
    }
}

impl ProviderDefinition {
    /// `"{id} ({type}): {name} - {description}"`.
    pub open spec fn display_spec(&self) -> Seq<char> {
        self.id@ + " ("@ + self.provider_type.display_spec() + "): "@ + self.name@ + " - "@
            + self.description@
    }

    /// `"{id} ({type}): {name} - {description}"`.
    pub fn display(&self) -> (s: String)
        ensures
            s@ == self.display_spec(),
    {
        let a = join2(self.id.as_str(), " (");
        let b = join2(a.as_str(), self.provider_type.display().as_str());
        let c = join2(b.as_str(), "): ");
        let d = join2(c.as_str(), self.name.as_str());
        let e = join2(d.as_str(), " - ");
        let r = join2(e.as_str(), self.description.as_str());
        assert(r@ =~= self.display_spec());
        r
    }
}

/// Ids of the bundled providers, in catalog order.
pub open spec fn bundled_provider_ids() -> Seq<Seq<char>> {
    seq!["openai"@, "anthropic"@, "ollama"@, "watsonx"@]
}

/// The bundled providers: ids, types, endpoints, API surfaces, formats and tags.
pub open spec fn is_bundled_provider_catalog(p: Seq<ProviderDefinition>) -> bool {
    &&& p.len() == 4
    &&& forall|i: int| 0 <= i < 4 ==> #[trigger] p[i].id@ == bundled_provider_ids()[i]
    &&& p[0].name@ == "OpenAI"@ && p[1].name@ == "Anthropic"@ && p[2].name@ == "Ollama"@
        && p[3].name@ == "IBM watsonx.ai"@
    &&& p[0].provider_type == ProviderType::Hosted && p[1].provider_type == ProviderType::Hosted
        && p[2].provider_type == ProviderType::Local && p[3].provider_type == ProviderType::Hosted
    &&& p[0].default_endpoint@ == "https://api.openai.com"@ && p[1].default_endpoint@
        == "https://api.anthropic.com"@ && p[2].default_endpoint@ == "http://localhost:11434"@
        && p[3].default_endpoint@ == "https://watsonx.ai"@
    &&& p[0].api_capabilities@ == seq![ApiSurface::OpenAIChat] && p[1].api_capabilities@ == seq![
        ApiSurface::AnthropicMessages,
    ] && p[2].api_capabilities@ == seq![ApiSurface::OllamaChat] && p[3].api_capabilities@ == seq![
        ApiSurface::OpenAIChat,
    ]
    &&& p[0].supported_formats@ == seq![ModelFormat::Safetensors] && p[1].supported_formats@ == seq![
        ModelFormat::Safetensors,
    ] && p[2].supported_formats@ == seq![ModelFormat::GGUF] && p[3].supported_formats@ == seq![
        ModelFormat::Safetensors,
    ]
    &&& p[2].authentication@ == seq![AuthType::NoAuth] && p[0].authentication@ == seq![AuthType::ApiKey]
    &&& string_views(p[0].tags@) == seq!["openai"@, "gpt"@, "hosted"@]
    &&& string_views(p[1].tags@) == seq!["anthropic"@, "hosted"@]
    &&& string_views(p[2].tags@) == seq!["ollama"@, "local"@, "gguf"@]
    &&& string_views(p[3].tags@) == seq!["ibm"@, "watsonx"@, "granite"@, "hosted"@]
}

/// The catalog of provider services.
pub struct ProviderRegistry {
    pub providers: Vec<ProviderDefinition>,
}

impl ProviderRegistry {
    /// The catalog holding the bundled providers.
    pub fn new() -> (r: Self)
        ensures
            is_bundled_provider_catalog(r.providers@),
    {
        ProviderRegistry { providers: Self::bundled_providers() }
    }

    /// The bundled providers.
    pub fn bundled_providers() -> (v: Vec<ProviderDefinition>)
        ensures
            is_bundled_provider_catalog(v@),
    {
        let v = vec![
            ProviderDefinition {
                id: "openai".to_string(),
                name: "OpenAI".to_string(),
                description: "OpenAI API with GPT-4, GPT-3.5, and other models.".to_string(),
                provider_type: ProviderType::Hosted,
                default_endpoint: "https://api.openai.com".to_string(),
                api_capabilities: vec![ApiSurface::OpenAIChat],
                supported_formats: vec![ModelFormat::Safetensors],
                supported_precisions: vec![Precision::BF16, Precision::FP16],
                authentication: vec![AuthType::ApiKey],
                tags: strings3("openai", "gpt", "hosted"),
            },
            ProviderDefinition {
                id: "anthropic".to_string(),
                name: "Anthropic".to_string(),
                description: "Anthropic API for safe and helpful AI models.".to_string(),
                provider_type: ProviderType::Hosted,
                default_endpoint: "https://api.anthropic.com".to_string(),
                api_capabilities: vec![ApiSurface::AnthropicMessages],
                supported_formats: vec![ModelFormat::Safetensors],
                supported_precisions: vec![Precision::BF16, Precision::FP16],
                authentication: vec![AuthType::ApiKey],
                tags: strings2("anthropic", "hosted"),
            },
            ProviderDefinition {
                id: "ollama".to_string(),
                name: "Ollama".to_string(),
                description: "Local model serving via Ollama. Supports many open-source models.".to_string(),
                provider_type: ProviderType::Local,
                default_endpoint: "http://localhost:11434".to_string(),
                api_capabilities: vec![ApiSurface::OllamaChat],
                supported_formats: vec![ModelFormat::GGUF],
                supported_precisions: vec![
                    Precision::Q8_0,
                    Precision::Q4_K_M,
                    Precision::Q5_K_M,
                    Precision::Q3_K_M,
                ],
                authentication: vec![AuthType::NoAuth],
                tags: strings3("ollama", "local", "gguf"),
            },
            ProviderDefinition {
                id: "watsonx".to_string(),
                name: "IBM watsonx.ai".to_string(),
                description: "IBM's enterprise AI platform with Granite and other models.".to_string(),
                provider_type: ProviderType::Hosted,
                default_endpoint: "https://watsonx.ai".to_string(),
                api_capabilities: vec![ApiSurface::OpenAIChat],
                supported_formats: vec![ModelFormat::Safetensors],
                supported_precisions: vec![Precision::BF16, Precision::FP16],
                authentication: vec![AuthType::ApiKey],
                tags: strings4("ibm", "watsonx", "granite", "hosted"),
            },
        ];
        assert(v@[0].api_capabilities@ =~= seq![ApiSurface::OpenAIChat]);
        assert(v@[1].api_capabilities@ =~= seq![ApiSurface::AnthropicMessages]);
        assert(v@[2].api_capabilities@ =~= seq![ApiSurface::OllamaChat]);
        assert(v@[3].api_capabilities@ =~= seq![ApiSurface::OpenAIChat]);
        assert(v@[0].supported_formats@ =~= seq![ModelFormat::Safetensors]);
        assert(v@[1].supported_formats@ =~= seq![ModelFormat::Safetensors]);
        assert(v@[2].supported_formats@ =~= seq![ModelFormat::GGUF]);
        assert(v@[3].supported_formats@ =~= seq![ModelFormat::Safetensors]);
        assert(v@[0].authentication@ =~= seq![AuthType::ApiKey]);
        assert(v@[2].authentication@ =~= seq![AuthType::NoAuth]);
        v
    }
}

impl Registry<ProviderDefinition> for ProviderRegistry {
    fn list(&self) -> (r: Vec<&ProviderDefinition>)
        ensures
            deref_seq(r@) == self.providers@,
    {
        list_entries(&self.providers)
    }

    fn get(&self, id: &str) -> (r: Option<&ProviderDefinition>)
        ensures
            match r {
                Some(e) => exists|i: int| is_first_with_key(self.providers@, id@, i) && self.providers@[i] == *e,
                None => !has_key(self.providers@, id@),
            },
    {
        find_entry(&self.providers, id)
    }

    fn search(&self, query: &str) -> (r: Vec<&ProviderDefinition>)
        ensures
            deref_seq(r@) == matching_entries(self.providers@, query@),
    {
        search_entries(&self.providers, query)
    }
}

} // verus!
