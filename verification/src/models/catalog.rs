//! The bundled model catalog.
use vstd::prelude::*;

use crate::models::base::ModelFunction;
use crate::models::base::ModelMetadata;
use crate::models::base::ModelType;
use crate::models::base::ModelVariant;
use crate::registry::Factory;

verus! {

fn variant(format: &str, precision: &str, size_decigb: u64, url: &str) -> (v: ModelVariant)
    ensures
        v.format@ == format@,
        v.precision@ == precision@,
        v.size_decigb == size_decigb,
        v.url@ == url@,
{
    ModelVariant { format: format.to_string(), precision: precision.to_string(), size_decigb, url: url.to_string() }
}

/// Ids, families, types, sizes and context lengths of the bundled models.
pub open spec fn bundled_models() -> Seq<(Seq<char>, Seq<char>, ModelType, u64, u64)> {
    seq![
        ("granite-3.1-3b-instruct"@, "Granite"@, ModelType::Text, 3460000000, 8192),
        ("granite-3.1-8b-instruct"@, "Granite"@, ModelType::Text, 8290000000, 8192),
        ("granite-3.1-20b-instruct"@, "Granite"@, ModelType::Text, 20700000000, 8192),
        ("granite-vision-3.1-8b"@, "Granite Vision"@, ModelType::Vision, 8290000000, 4096),
        ("granite-speech-1.0"@, "Granite Speech"@, ModelType::Speech, 3000000000, 3000),
        ("granite-guardian-3.1-8b"@, "Granite Guardian"@, ModelType::Text, 8290000000, 128000),
    ]
}

/// The ids of the bundled models.
pub open spec fn bundled_model_id(i: int) -> Seq<char> {
    bundled_models()[i].0
}

fn model_0() -> (m: ModelMetadata)
    ensures
        m.id@ == "granite-3.1-3b-instruct"@,
        m.family@ == "Granite"@,
        m.model_type == ModelType::Text,
        m.size == 3460000000,
        m.context_length == 8192,
{
    ModelMetadata {
        id: "granite-3.1-3b-instruct".to_string(),
        family: "Granite".to_string(),
        version: "3.1".to_string(),
        size: 3460000000,
        context_length: 8192,
        model_type: ModelType::Text,
        huggingface_repo: "ibm-granite/granite-3.1-3b-instruct".to_string(),
        required_provider_capabilities: vec!["OpenAIChat".to_string(), "OllamaChat".to_string()],
        variants: vec![
            variant("GGUF", "Q4_K_M", 19, "ibm-granite/granite-3.1-3b-instruct-GGUF/granite-3.1-3b-instruct-Q4_K_M.gguf"),
            variant("GGUF", "Q8_0", 34, "ibm-granite/granite-3.1-3b-instruct-GGUF/granite-3.1-3b-instruct-Q8_0.gguf"),
            variant("safetensors", "BF16", 66, "ibm-granite/granite-3.1-3b-instruct"),
        ],
        description: Some("Granite 3.1 3B instruct-tuned model for text generation.".to_string()),
        tags: vec!["instruct".to_string(), "text".to_string(), "efficient".to_string()],
        supported_functions: vec![ModelFunction::Chat, ModelFunction::ToolCalling],
    }
}

fn model_1() -> (m: ModelMetadata)
    ensures
        m.id@ == "granite-3.1-8b-instruct"@,
        m.family@ == "Granite"@,
        m.model_type == ModelType::Text,
        m.size == 8290000000,
        m.context_length == 8192,
{
    ModelMetadata {
        id: "granite-3.1-8b-instruct".to_string(),
        family: "Granite".to_string(),
        version: "3.1".to_string(),
        size: 8290000000,
        context_length: 8192,
        model_type: ModelType::Text,
        huggingface_repo: "ibm-granite/granite-3.1-8b-instruct".to_string(),
        required_provider_capabilities: vec!["OpenAIChat".to_string(), "OllamaChat".to_string()],
        variants: vec![
            variant("GGUF", "Q4_K_M", 49, "ibm-granite/granite-3.1-8b-instruct-GGUF/granite-3.1-8b-instruct-Q4_K_M.gguf"),
            variant("GGUF", "Q8_0", 83, "ibm-granite/granite-3.1-8b-instruct-GGUF/granite-3.1-8b-instruct-Q8_0.gguf"),
            variant("safetensors", "BF16", 160, "ibm-granite/granite-3.1-8b-instruct"),
        ],
        description: Some("Granite 3.1 8B instruct-tuned model for general-purpose text generation.".to_string()),
        tags: vec!["instruct".to_string(), "text".to_string(), "general-purpose".to_string()],
        supported_functions: vec![ModelFunction::Chat, ModelFunction::ToolCalling],
    }
}

fn model_2() -> (m: ModelMetadata)
    ensures
        m.id@ == "granite-3.1-20b-instruct"@,
        m.family@ == "Granite"@,
        m.model_type == ModelType::Text,
        m.size == 20700000000,
        m.context_length == 8192,
{
    ModelMetadata {
        id: "granite-3.1-20b-instruct".to_string(),
        family: "Granite".to_string(),
        version: "3.1".to_string(),
        size: 20700000000,
        context_length: 8192,
        model_type: ModelType::Text,
        huggingface_repo: "ibm-granite/granite-3.1-20b-instruct".to_string(),
        required_provider_capabilities: vec!["OpenAIChat".to_string(), "OllamaChat".to_string()],
        variants: vec![
            variant("GGUF", "Q4_K_M", 128, "ibm-granite/granite-3.1-20b-instruct-GGUF/granite-3.1-20b-instruct-Q4_K_M.gguf"),
            variant("GGUF", "Q5_K_M", 147, "ibm-granite/granite-3.1-20b-instruct-GGUF/granite-3.1-20b-instruct-Q5_K_M.gguf"),
            variant("safetensors", "BF16", 400, "ibm-granite/granite-3.1-20b-instruct"),
        ],
        description: Some("Granite 3.1 20B instruct-tuned model for complex reasoning tasks.".to_string()),
        tags: vec!["instruct".to_string(), "text".to_string(), "reasoning".to_string()],
        supported_functions: vec![ModelFunction::Chat, ModelFunction::ToolCalling],
    }
}

fn model_3() -> (m: ModelMetadata)
    ensures
        m.id@ == "granite-vision-3.1-8b"@,
        m.family@ == "Granite Vision"@,
        m.model_type == ModelType::Vision,
        m.size == 8290000000,
        m.context_length == 4096,
{
    ModelMetadata {
        id: "granite-vision-3.1-8b".to_string(),
        family: "Granite Vision".to_string(),
        version: "3.1".to_string(),
        size: 8290000000,
        context_length: 4096,
        model_type: ModelType::Vision,
        huggingface_repo: "ibm-granite/granite-vision-3.1-8b".to_string(),
        required_provider_capabilities: vec!["OpenAIChat".to_string()],
        variants: vec![
            variant("safetensors", "BF16", 160, "ibm-granite/granite-vision-3.1-8b"),
        ],
        description: Some("Granite Vision 3.1 8B for visual analysis and image understanding.".to_string()),
        tags: vec!["vision".to_string(), "image".to_string(), "multimodal".to_string()],
        supported_functions: vec![ModelFunction::Chat, ModelFunction::ImageUnderstanding],
    }
}

fn model_4() -> (m: ModelMetadata)
    ensures
        m.id@ == "granite-speech-1.0"@,
        m.family@ == "Granite Speech"@,
        m.model_type == ModelType::Speech,
        m.size == 3000000000,
        m.context_length == 3000,
{
    ModelMetadata {
        id: "granite-speech-1.0".to_string(),
        family: "Granite Speech".to_string(),
        version: "1.0".to_string(),
        size: 3000000000,
        context_length: 3000,
        model_type: ModelType::Speech,
        huggingface_repo: "ibm-granite/granite-speech-1.0".to_string(),
        required_provider_capabilities: vec!["OllamaChat".to_string()],
        variants: vec![
            variant("GGUF", "Q4_K_M", 16, "ibm-granite/granite-speech-1.0-GGUF/granite-speech-1.0-Q4_K_M.gguf"),
            variant("GGUF", "Q8_0", 29, "ibm-granite/granite-speech-1.0-GGUF/granite-speech-1.0-Q8_0.gguf"),
        ],
        description: Some("Granite Speech 1.0 for audio transcription and translation.".to_string()),
        tags: vec!["speech".to_string(), "audio".to_string(), "transcription".to_string()],
        supported_functions: vec![ModelFunction::Transcription, ModelFunction::Translation],
    }
}

fn model_5() -> (m: ModelMetadata)
    ensures
        m.id@ == "granite-guardian-3.1-8b"@,
        m.family@ == "Granite Guardian"@,
        m.model_type == ModelType::Text,
        m.size == 8290000000,
        m.context_length == 128000,
{
    ModelMetadata {
        id: "granite-guardian-3.1-8b".to_string(),
        family: "Granite Guardian".to_string(),
        version: "3.1".to_string(),
        size: 8290000000,
        context_length: 128000,
        model_type: ModelType::Text,
        huggingface_repo: "ibm-granite/granite-guardian-3.1-8b".to_string(),
        required_provider_capabilities: vec!["OpenAIChat".to_string(), "OllamaChat".to_string()],
        variants: vec![
            variant("GGUF", "Q4_K_M", 49, "ibm-granite/granite-guardian-3.1-8b-GGUF/granite-guardian-3.1-8b-Q4_K_M.gguf"),
            variant("safetensors", "BF16", 160, "ibm-granite/granite-guardian-3.1-8b"),
        ],
        description: Some("Granite Guardian 3.1 8B for safety classification and content moderation.".to_string()),
        tags: vec!["guardian".to_string(), "safety".to_string(), "moderation".to_string()],
        supported_functions: vec![ModelFunction::Chat, ModelFunction::Guardian],
    }
}

/// The bundled models, registered under their ids.
pub fn model_registry() -> (f: Factory<ModelMetadata>)
    ensures
        forall|i: int|
            0 <= i < bundled_models().len() ==> f@.contains_key(#[trigger] bundled_model_id(i)) && f@[bundled_model_id(
                i,
            )].family@ == bundled_models()[i].1 && f@[bundled_model_id(i)].model_type == bundled_models()[i].2
                && f@[bundled_model_id(i)].size == bundled_models()[i].3 && f@[bundled_model_id(i)].context_length
                == bundled_models()[i].4,
        forall|k: Seq<char>|
            #[trigger] f@.contains_key(k) ==> exists|i: int| 0 <= i < bundled_models().len() && bundled_model_id(i) == k,
{
    proof {
        reveal_strlit("granite-3.1-3b-instruct");
    }
    proof {
        reveal_strlit("granite-3.1-8b-instruct");
    }
    proof {
        reveal_strlit("granite-3.1-20b-instruct");
    }
    proof {
        reveal_strlit("granite-vision-3.1-8b");
    }
    proof {
        reveal_strlit("granite-speech-1.0");
    }
    proof {
        reveal_strlit("granite-guardian-3.1-8b");
    }
    let mut f: Factory<ModelMetadata> = Factory::new();
    let m0 = model_0();
    let m1 = model_1();
    let m2 = model_2();
    let m3 = model_3();
    let m4 = model_4();
    let m5 = model_5();
    let ghost g = seq![m0, m1, m2, m3, m4, m5];
    f.register("granite-3.1-3b-instruct", m0);
    f.register("granite-3.1-8b-instruct", m1);
    f.register("granite-3.1-20b-instruct", m2);
    f.register("granite-vision-3.1-8b", m3);
    f.register("granite-speech-1.0", m4);
    f.register("granite-guardian-3.1-8b", m5);
    proof {
        let t = bundled_models();
        assert("granite-3.1-3b-instruct"@[12] != "granite-3.1-8b-instruct"@[12]);
        assert("granite-3.1-3b-instruct"@.len() != "granite-3.1-20b-instruct"@.len());
        assert("granite-3.1-3b-instruct"@.len() != "granite-vision-3.1-8b"@.len());
        assert("granite-3.1-3b-instruct"@.len() != "granite-speech-1.0"@.len());
        assert("granite-3.1-3b-instruct"@[8] != "granite-guardian-3.1-8b"@[8]);
        assert("granite-3.1-8b-instruct"@.len() != "granite-3.1-20b-instruct"@.len());
        assert("granite-3.1-8b-instruct"@.len() != "granite-vision-3.1-8b"@.len());
        assert("granite-3.1-8b-instruct"@.len() != "granite-speech-1.0"@.len());
        assert("granite-3.1-8b-instruct"@[8] != "granite-guardian-3.1-8b"@[8]);
        assert("granite-3.1-20b-instruct"@.len() != "granite-vision-3.1-8b"@.len());
        assert("granite-3.1-20b-instruct"@.len() != "granite-speech-1.0"@.len());
        assert("granite-3.1-20b-instruct"@.len() != "granite-guardian-3.1-8b"@.len());
        assert("granite-vision-3.1-8b"@.len() != "granite-speech-1.0"@.len());
        assert("granite-vision-3.1-8b"@.len() != "granite-guardian-3.1-8b"@.len());
        assert("granite-speech-1.0"@.len() != "granite-guardian-3.1-8b"@.len());
        assert(f@["granite-3.1-3b-instruct"@] == g[0]);
        assert(f@["granite-3.1-8b-instruct"@] == g[1]);
        assert(f@["granite-3.1-20b-instruct"@] == g[2]);
        assert(f@["granite-vision-3.1-8b"@] == g[3]);
        assert(f@["granite-speech-1.0"@] == g[4]);
        assert(f@["granite-guardian-3.1-8b"@] == g[5]);
        assert forall|k: Seq<char>| #[trigger] f@.contains_key(k) implies exists|i: int|
            0 <= i < bundled_models().len() && bundled_model_id(i) == k by {
            if k == "granite-3.1-3b-instruct"@ {
                assert(bundled_model_id(0) == k);
            } else if k == "granite-3.1-8b-instruct"@ {
                assert(bundled_model_id(1) == k);
            } else if k == "granite-3.1-20b-instruct"@ {
                assert(bundled_model_id(2) == k);
            } else if k == "granite-vision-3.1-8b"@ {
                assert(bundled_model_id(3) == k);
            } else if k == "granite-speech-1.0"@ {
                assert(bundled_model_id(4) == k);
            } else if k == "granite-guardian-3.1-8b"@ {
                assert(bundled_model_id(5) == k);
            }
        }
    }
    f
}

} // verus!
