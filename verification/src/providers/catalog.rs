//! The catalog of provider types.
use vstd::prelude::*;

use crate::providers::base::ProviderMetadata;
use crate::providers::llamacpp::LlamaCppProvider;
use crate::providers::ollama::OllamaProvider;
use crate::providers::openai_compat::OpenAiCompatProvider;
use crate::registry::Factory;

verus! {

/// Every provider type, registered under its id.
pub fn provider_registry() -> (f: Factory<ProviderMetadata>)
    ensures
        f@.dom() == set!["ollama"@, "llamacpp"@, "openai-compatible"@],
        f@["ollama"@].name@ == "Ollama"@,
        f@["llamacpp"@].name@ == "llama.cpp"@,
        f@["openai-compatible"@].name@ == "OpenAI"@,
        f@["openai-compatible"@].default_endpoint@ == "https://api.openai.com"@,
{
    let mut f: Factory<ProviderMetadata> = Factory::new();
    f.register("ollama", OllamaProvider::metadata());
    f.register("llamacpp", LlamaCppProvider::metadata());
    f.register("openai-compatible", OpenAiCompatProvider::metadata());
    proof {
        reveal_strlit("ollama");
        reveal_strlit("llamacpp");
        reveal_strlit("openai-compatible");
        assert("ollama"@.len() != "llamacpp"@.len());
        assert("ollama"@.len() != "openai-compatible"@.len());
        assert("llamacpp"@.len() != "openai-compatible"@.len());
        assert(f@.dom() =~= set!["ollama"@, "llamacpp"@, "openai-compatible"@]);
    }
    f
}

} // verus!
