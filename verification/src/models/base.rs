//! Model metadata: functions, types and downloadable variants.
use vstd::prelude::*;

verus! {

/// Functional capabilities that models can provide.
#[derive(PartialEq, Eq, Structural, Clone, Copy, Debug)]
pub enum ModelFunction {
    /// Text-based conversational interaction
    Chat,
    /// Tool inputs and invocations
    ToolCalling,
    /// Chain-of-thought reasoning
    Thinking,
    /// Visual content analysis and understanding
    ImageUnderstanding,
    /// Detect harms
    Guardian,
    /// Vector representation generation for text
    Embeddings,
    /// Audio-to-text transcription
    Transcription,
    /// Audio translation
    Translation,
    /// Speaker attribution in audio
    SpeakerAttribution,
    /// Keyword biasing in audio
    KeywordBiasing,
}

impl ModelFunction {
    /// The variant's name, as Rust's `Debug` shows it.
    pub open spec fn debug_name(self) -> Seq<char> {
        match self {
            ModelFunction::Chat => "Chat"@,
            ModelFunction::ToolCalling => "ToolCalling"@,
            ModelFunction::Thinking => "Thinking"@,
            ModelFunction::ImageUnderstanding => "ImageUnderstanding"@,
            ModelFunction::Guardian => "Guardian"@,
            ModelFunction::Embeddings => "Embeddings"@,
            ModelFunction::Transcription => "Transcription"@,
            ModelFunction::Translation => "Translation"@,
            ModelFunction::SpeakerAttribution => "SpeakerAttribution"@,
            ModelFunction::KeywordBiasing => "KeywordBiasing"@,
        }
    }

    /// The variant's name, as Rust's `Debug` shows it.
    pub fn debug_text(&self) -> (s: String)
        ensures
            s@ == self.debug_name(),
    {
        match self {
            ModelFunction::Chat => "Chat".to_string(),
            ModelFunction::ToolCalling => "ToolCalling".to_string(),
            ModelFunction::Thinking => "Thinking".to_string(),
            ModelFunction::ImageUnderstanding => "ImageUnderstanding".to_string(),
            ModelFunction::Guardian => "Guardian".to_string(),
            ModelFunction::Embeddings => "Embeddings".to_string(),
            ModelFunction::Transcription => "Transcription".to_string(),
            ModelFunction::Translation => "Translation".to_string(),
            ModelFunction::SpeakerAttribution => "SpeakerAttribution".to_string(),
            ModelFunction::KeywordBiasing => "KeywordBiasing".to_string(),
        }
    }

    /// Human-readable name of the function.
    pub open spec fn display_spec(self) -> Seq<char> {
        match self {
            ModelFunction::Chat => "Chat"@,
            ModelFunction::ToolCalling => "ToolCalling"@,
            ModelFunction::Thinking => "Thinking"@,
            ModelFunction::ImageUnderstanding => "Image Understanding"@,
            ModelFunction::Guardian => "Guardian"@,
            ModelFunction::Embeddings => "Embeddings"@,
            ModelFunction::Transcription => "Transcription"@,
            ModelFunction::Translation => "Translation"@,
            ModelFunction::SpeakerAttribution => "Speaker Attribution"@,
            ModelFunction::KeywordBiasing => "Keyword Biasing"@,
        }
    }

    /// Human-readable name of the function.
    pub fn display(&self) -> (s: String)
        ensures
            s@ == self.display_spec(),
    {
        match self {
            ModelFunction::Chat => "Chat".to_string(),
            ModelFunction::ToolCalling => "ToolCalling".to_string(),
            ModelFunction::Thinking => "Thinking".to_string(),
            ModelFunction::ImageUnderstanding => "Image Understanding".to_string(),
            ModelFunction::Guardian => "Guardian".to_string(),
            ModelFunction::Embeddings => "Embeddings".to_string(),
            ModelFunction::Transcription => "Transcription".to_string(),
            ModelFunction::Translation => "Translation".to_string(),
            ModelFunction::SpeakerAttribution => "Speaker Attribution".to_string(),
            ModelFunction::KeywordBiasing => "Keyword Biasing".to_string(),
        }
    }
}

/// The modality of a model.
#[derive(PartialEq, Eq, Structural, Clone, Copy, Debug)]
pub enum ModelType {
    Text,
    Vision,
    Speech,
    Embedding,
}

impl ModelType {
    /// Name of the model type.
    pub open spec fn display_spec(self) -> Seq<char> {
        match self {
            ModelType::Text => "Text"@,
            ModelType::Vision => "Vision"@,
            ModelType::Speech => "Speech"@,
            ModelType::Embedding => "Embedding"@,
        }
    }

    /// Name of the model type.
    pub fn display(&self) -> (s: String)
        ensures
            s@ == self.display_spec(),
    {
        match self {
            ModelType::Text => "Text".to_string(),
            ModelType::Vision => "Vision".to_string(),
            ModelType::Speech => "Speech".to_string(),
            ModelType::Embedding => "Embedding".to_string(),
        }
    }
}

/// One downloadable form of a model. The size is in tenths of a gigabyte.
pub struct ModelVariant {
    pub format: String,
    pub precision: String,
    pub size_decigb: u64,
    pub url: String,
}

/// Everything the catalog knows about a model.
pub struct ModelMetadata {
    pub id: String,
    pub family: String,
    pub version: String,
    pub size: u64,
    pub context_length: u64,
    pub model_type: ModelType,
    pub huggingface_repo: String,
    pub required_provider_capabilities: Vec<String>,
    pub variants: Vec<ModelVariant>,
    pub description: Option<String>,
    pub tags: Vec<String>,
    pub supported_functions: Vec<ModelFunction>,
}

} // verus!
