//! Launchers: the agent tools granite-cli starts, each with the environment
//! it is given for the bound model.
pub mod base;
pub mod catalog;
pub mod bob;
pub mod goose;
pub mod hermes;
pub mod opencode;
pub mod openclaw;

pub use base::EnvBinding;
pub use base::LauncherMetadata;
pub use bob::BobLauncher;
pub use goose::GooseLauncher;
pub use hermes::HermesLauncher;
pub use opencode::OpenCodeLauncher;
pub use openclaw::OpenClawLauncher;
