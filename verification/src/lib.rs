//! Verified core of a tool that discovers, configures and launches local and
//! remote AI model workflows.
pub mod capabilities;
pub mod commands;
pub mod config;
pub mod di;
pub mod json;
pub mod launchers;
pub mod models;
pub mod providers;
pub mod proxy;
pub mod registry;
pub mod strmap;
pub mod text;
