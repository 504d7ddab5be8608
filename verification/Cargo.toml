[package]
name = "eleviewr"
version = "0.4.0"
edition = "2021"
publish = false

[dependencies]
anyhow = "1"
bytemuck = { version = "1", features = ["derive"] }
clap = { version = "4", default-features = false, features = ["std", "derive", "help"] }
dirs = "5"
egui = { version = "0.23", default-features = false }
egui-wgpu = { version = "0.23", default-features = false }
egui-winit = { version = "0.23", default-features = false }
image = { version = "0.24", default-features = false, features = ["jpeg", "png", "gif", "webp", "tiff", "bmp"] }
pollster = "0.3"
serde = { version = "1", features = ["derive"] }
toml = "0.8"
walkdir = "2"
wgpu = { version = "0.17", default-features = false }
winit = { version = "0.28", default-features = false, features = ["x11"] }
