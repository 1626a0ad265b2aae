//! Textures: decoding texture files, and the textures of a level.

pub mod ktx2_file;
pub mod texture;
pub mod texture_manager;
