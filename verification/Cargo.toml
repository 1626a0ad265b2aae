[package]
name = "galaxy_engine"
version = "0.1.0"
edition = "2021"
publish = false

[dependencies]
anyhow = "=1.0.104"
arrayvec = "=0.7.8"
ash = "=0.38.0"
ash-window = "=0.13.0"
basis-universal = "=0.3.1"
bevy_mikktspace = "=0.15.3"
bytemuck = { version = "=1.25.2", features = ["derive"] }
egui = { version = "=0.30.0", default-features = false, features = ["default_fonts"] }
egui-winit = { version = "=0.30.0", default-features = false, features = ["x11"] }
env_logger = "=0.11.11"
fastrand = "=2.5.0"
glob = "=0.3.4"
gpu-allocator = { version = "=0.27.0", default-features = false, features = ["vulkan"] }
indexmap = "=2.14.2"
ktx2 = "=0.4.0"
log = "=0.4.35"
meshopt = "=0.4.1"
obj-rs = "=0.7.4"
parking_lot = "=0.12.5"
path-slash = "=0.2.1"
presser = "=0.3.1"
raw-window-handle = "=0.6.2"
ron = "=0.8.1"
serde = { version = "=1.0.229", features = ["derive"] }
shipyard = "=0.7.8"
smallvec = "=1.16.4"
thiserror = "=1.0.69"
ultraviolet = { version = "=0.9.2", features = ["serde", "bytemuck"] }
winit = { version = "=0.30.13", default-features = false, features = ["x11", "rwh_06"] }
zstd = "=0.13.4"
