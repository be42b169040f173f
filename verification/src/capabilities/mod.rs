//! Capabilities: features that need models, providers or tools and that
//! launchers bind into an agent's environment.
pub mod agent_model;
pub mod base;
pub mod catalog;
pub mod compiler;
pub mod docling;
pub mod speech;
pub mod vision;
pub mod vision_mcp;

pub use agent_model::AgentModelCapability;
pub use agent_model::ProviderConnection;
pub use base::AgentModelBinding;
pub use base::Binding;
pub use base::BindingRequest;
pub use base::BindingType;
pub use base::CapabilityMetadata;
pub use base::Dependency;
pub use compiler::CompilerCapability;
pub use docling::DoclingCapability;
pub use speech::SpeechCapability;
pub use vision::VisionCapability;
