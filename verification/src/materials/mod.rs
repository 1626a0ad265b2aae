//! Materials: their configurations, and the data that shaders read of them.

pub mod config;
pub mod constant;
pub mod material;
pub mod material_manager;
