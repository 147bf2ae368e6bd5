[package]
name = "delve"
version = "0.1.0"
edition = "2021"
publish = false

[dependencies]
bytemuck = { version = "1", features = ["derive"] }
color-eyre = "0.6"
image = { version = "0.24", default-features = false, features = ["png"] }
knuffel = "3"
raw-window-handle = "0.5"
thiserror = "1"
tokio = { version = "1", features = ["macros", "rt-multi-thread"] }
tracing = "0.1"
tracing-subscriber = { version = "0.3", features = ["env-filter"] }
wgpu = "0.15"
winit = "0.28"
