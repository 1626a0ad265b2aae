//! Meshes: loading, buffers, and the megabuffer that a level draws from.

pub mod adjacency;
pub mod buffer;
pub mod indexing;
pub mod load;
pub mod mesh;
pub mod mesh_manager;
pub mod model;
pub mod optimise;
pub mod statements;
pub mod vertex;
