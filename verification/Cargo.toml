[package]
name = "sheaf"
version = "0.2.0"
edition = "2021"
publish = false

[dependencies]
anyhow = "1"
faer = "0.22"
half = "2"
ndarray = "0.16"
ndarray-npy = "0.9"
safetensors = "0.5"
serde = { version = "1", features = ["derive"] }
serde_json = "1"
wasm-bindgen = "0.2"
