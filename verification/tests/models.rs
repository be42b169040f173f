use granite_cli::models::context_fit::floor_pow2;
use granite_cli::models::huggingface::hf_blob_filename;
use granite_cli::models::huggingface::hf_repo_id;
use granite_cli::models::model_registry;
use granite_cli::models::ModelFunction;
use granite_cli::models::ModelType;

#[test]
fn hf_repo_id_from_bare_repo() {
    assert_eq!(
        hf_repo_id("ibm-granite/granite-speech-4.1-2b"),
        Some("ibm-granite/granite-speech-4.1-2b")
    );
}

#[test]
fn hf_repo_id_from_repo_url() {
    assert_eq!(
        hf_repo_id("https://huggingface.co/ibm-granite/granite-speech-4.1-2b"),
        Some("ibm-granite/granite-speech-4.1-2b")
    );
}

#[test]
fn hf_repo_id_from_blob_url() {
    assert_eq!(
        hf_repo_id(
            "https://huggingface.co/ibm-granite/granite-speech-4.1-2b-GGUF/blob/main/granite-speech-4.1-2b-Q4_K_M.gguf"
        ),
        Some("ibm-granite/granite-speech-4.1-2b-GGUF")
    );
}

#[test]
fn hf_repo_id_rejects_non_hf_url() {
    assert_eq!(hf_repo_id("https://ollama.com/library/granite4:1b"), None);
}

#[test]
fn hf_blob_filename_from_blob_url() {
    assert_eq!(
        hf_blob_filename(
            "https://huggingface.co/ibm-granite/granite-speech-4.1-2b-GGUF/blob/main/granite-speech-4.1-2b-Q4_K_M.gguf"
        ),
        Some("granite-speech-4.1-2b-Q4_K_M.gguf")
    );
}

#[test]
fn hf_blob_filename_none_for_bare_repo() {
    assert_eq!(hf_blob_filename("ibm-granite/granite-speech-4.1-2b"), None);
}

#[test]
fn floor_pow2_rounds_down_to_nearest_power_of_two() {
    assert_eq!(floor_pow2(17_249), 16_384);
    assert_eq!(floor_pow2(1), 1);
    assert_eq!(floor_pow2(2), 2);
    assert_eq!(floor_pow2(4096), 4096);
    assert_eq!(floor_pow2(4097), 4096);
}

#[test]
fn floor_pow2_of_a_power_is_itself() {
    assert_eq!(floor_pow2(1 << 40), 1 << 40);
    assert_eq!(floor_pow2((1 << 40) - 1), 1 << 39);
}

#[test]
fn test_all_models_registered() {
    let registry = model_registry();
    let models = registry.list();
    assert_eq!(models.len(), 6, "Expected 6 models to be registered");
}

#[test]
fn test_get_specific_model() {
    let registry = model_registry();
    let model = registry.get("granite-3.1-8b-instruct");
    assert!(model.is_some(), "granite-3.1-8b-instruct should be registered");

    let metadata = model.unwrap();
    assert_eq!(metadata.id, "granite-3.1-8b-instruct");
    assert_eq!(metadata.family, "Granite");
    assert_eq!(metadata.version, "3.1");
    assert_eq!(metadata.size, 8290000000);
    assert_eq!(metadata.context_length, 8192);
    assert_eq!(metadata.model_type, ModelType::Text);
}

#[test]
fn mod_test_model_variants() {
    let registry = model_registry();
    let model = registry.get("granite-3.1-8b-instruct").unwrap();
    assert_eq!(model.variants.len(), 3, "granite-3.1-8b-instruct should have 3 variants");

    let variant = &model.variants[0];
    assert_eq!(variant.format, "GGUF");
    assert_eq!(variant.precision, "Q4_K_M");
    assert_eq!(variant.size_decigb as f64 / 10.0, 4.9);
}

#[test]
fn test_all_model_ids() {
    let registry = model_registry();
    let models = registry.list();
    let ids: Vec<&str> = models.iter().map(|(id, _)| id.as_str()).collect();

    assert!(ids.contains(&"granite-3.1-3b-instruct"));
    assert!(ids.contains(&"granite-3.1-8b-instruct"));
    assert!(ids.contains(&"granite-3.1-20b-instruct"));
    assert!(ids.contains(&"granite-vision-3.1-8b"));
    assert!(ids.contains(&"granite-speech-1.0"));
    assert!(ids.contains(&"granite-guardian-3.1-8b"));
}

#[test]
fn test_model_types() {
    let registry = model_registry();
    let text_model = registry.get("granite-3.1-8b-instruct").unwrap();
    assert_eq!(text_model.model_type, ModelType::Text);

    let vision_model = registry.get("granite-vision-3.1-8b").unwrap();
    assert_eq!(vision_model.model_type, ModelType::Vision);

    let speech_model = registry.get("granite-speech-1.0").unwrap();
    assert_eq!(speech_model.model_type, ModelType::Speech);
}

#[test]
fn speech_model_transcribes_and_translates() {
    let registry = model_registry();
    let speech = registry.get("granite-speech-1.0").unwrap();
    assert_eq!(
        speech.supported_functions,
        vec![ModelFunction::Transcription, ModelFunction::Translation]
    );
}

#[test]
fn model_function_display_names() {
    assert_eq!(ModelFunction::ImageUnderstanding.display(), "Image Understanding");
    assert_eq!(ModelFunction::ToolCalling.display(), "ToolCalling");
    assert_eq!(ModelFunction::SpeakerAttribution.display(), "Speaker Attribution");
}
