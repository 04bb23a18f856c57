[package]
name = "tile_cpu"
version = "0.1.0"
edition = "2021"
publish = false

[dependencies]
rustc-hash = "2"
cudarc = { version = "*", default-features = false, features = ["std", "driver", "nvrtc", "dynamic-loading", "cuda-12060"] }
