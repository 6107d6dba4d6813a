[package]
name = "vent"
version = "0.1.0"
edition = "2021"
publish = false

[dependencies]
ash = "=0.38.0"
image = { version = "=0.25.10", default-features = false }
log = "=0.4.34"
bytemuck = { version = "=1.25.2", features = ["derive"] }
chrono = "=0.4.45"
sysinfo = "=0.39.6"
raw-window-handle = "=0.6.2"
wayland-client = { version = "=0.31.15", features = ["dlopen"] }
wayland-protocols = { version = "=0.32.13", features = ["client", "unstable", "staging"] }
xkbcommon = "=0.9.0"
xkeysym = "=0.2.1"
wgpu = { version = "=30.0.1", default-features = false }
winit = { version = "=0.30.13", default-features = false, features = ["wayland", "wayland-dlopen", "rwh_06"] }
