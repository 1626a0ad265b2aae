//! Pipelines: their configurations, layouts and lookup.

pub mod bindings;
pub mod config;
pub mod pipeline;
pub mod pipeline_manager;
