//! Rendering a graphical user interface: its samplers, its textures and its draws.

pub mod draw;
pub mod sampler;
pub mod textures;
