[package]
name = "voxel-util"
version = "0.1.0"
edition = "2021"
publish = false

[dependencies]
neon = "*"
serde = { version = "1", features = ["derive"] }
wasm-bindgen = { version = "0.2", features = ["serde-serialize"] }
