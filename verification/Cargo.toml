[package]
name = "alttabway"
version = "0.1.0"
edition = "2021"
publish = false

[dependencies]
anyhow = "*"
clap = { version = "*", features = ["derive"] }
egui = "*"
egui-wgpu = "*"
egui_software_backend = "*"
fast_image_resize = "*"
image = { version = "*", default-features = false, features = ["png", "jpeg"] }
lazy_static = "*"
notify = "*"
raw-window-handle = "*"
rust-ini = "*"
serde = { version = "*", features = ["derive"] }
smithay-client-toolkit = "*"
tokio = { version = "*", features = ["full"] }
toml = "*"
tracing = "*"
tracing-subscriber = "*"
wgpu = "*"
