[package]
name = "cubecl"
version = "0.1.0"
edition = "2021"
publish = false

[dependencies]
hashbrown = "0.15"
md5 = "0.7"
sanitize-filename = "0.6"
serde = { version = "1", features = ["derive"] }
serde_json = "1"
log = "0.4"
oneshot = "0.1"
spin = "0.9"
futures-lite = "2"
cudarc = { version = "0.17", default-features = false, features = ["std", "driver", "nvrtc", "dynamic-loading", "cuda-12080"] }
wgpu = { version = "27", default-features = false }
