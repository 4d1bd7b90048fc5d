[package]
name = "desktop_things"
version = "0.1.0"
edition = "2021"
publish = false

[dependencies]
bytemuck = "1"
chrono = "0.4"
egui = "0.31"
egui-wgpu = "0.31"
parley = "0.6"
pollster = "0.4"
raw-window-handle = "0.6"
smithay-client-toolkit = { version = "0.20", default-features = false, features = ["calloop"] }
smol = "2"
thiserror = "2"
tracing = "0.1"
tracing-subscriber = "0.3"
vello = "0.6"
wayland-backend = { version = "0.3", features = ["client_system", "dlopen"] }
wayland-client = "0.31"
wayland-protocols = { version = "0.32", features = ["client", "staging"] }
wayland-scanner = "0.31"
wgpu = "26"
