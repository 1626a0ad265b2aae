//! Levels: the entities of a scene, and how they are drawn.

pub mod config;
pub mod draw;
pub mod order;
pub mod scene;
