//! Dependency handling between capabilities.
pub mod graph;
pub mod resolver;
