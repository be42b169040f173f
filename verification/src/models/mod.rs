//! The model catalog.
pub mod base;
pub mod catalog;
pub mod context_fit;
pub mod generic;
pub mod huggingface;

pub use base::ModelFunction;
pub use base::ModelMetadata;
pub use base::ModelType;
pub use base::ModelVariant;
pub use catalog::model_registry;
pub use context_fit::ContextFit;
