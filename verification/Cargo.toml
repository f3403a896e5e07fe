[package]
name = "viewport-vulkan"
version = "0.1.0"
edition = "2021"
publish = false

[dependencies]
anyhow = "=1.0.104"
ash = "=0.38.0"
libc = "=0.2.191"
smithay = { version = "=0.7.0", default-features = false, features = ["backend_drm", "backend_gbm", "backend_vulkan", "wayland_frontend"] }
thiserror = "=2.0.21"
tracing = "=0.1.44"
