//! Inference providers: metadata, endpoints and local provider settings.
pub mod base;
pub mod catalog;
pub mod chat;
pub mod llamacpp;
pub mod ollama;
pub mod openai_compat;
pub mod probe;

pub use base::ApiEndpoint;
pub use base::ApiSurface;
pub use base::ApiType;
pub use base::AuthType;
pub use base::HealthStatus;
pub use base::ModelFormat;
pub use base::Precision;
pub use base::ProviderMetadata;
pub use base::ProviderType;
