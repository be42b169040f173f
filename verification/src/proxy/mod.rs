//! The local proxy between a launched agent and its model's provider.
pub mod server;
