//! The verified core of a small Vulkan game engine.

pub mod buffer;
pub mod debug;
pub mod descriptors;
pub mod device;
pub mod engine;
pub mod gui;
pub mod image;
pub mod index_map;
pub mod level;
pub mod loading;
pub mod materials;
pub mod maths;
pub mod meshes;
pub mod particles;
pub mod path;
pub mod pipelines;
pub mod reading;
pub mod renderer;
pub mod resource_paths;
pub mod resources;
pub mod shader;
pub mod sort;
pub mod static_resources;
pub mod swapchain;
pub mod text;
pub mod textures;
pub mod utils;
pub mod vertex_input;
pub mod vk;
pub mod window;
