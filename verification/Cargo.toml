[package]
name = "titan_core"
version = "0.1.0"
edition = "2021"
publish = false

[dependencies]
candle-core = "*"
candle-nn = "*"
pyo3 = "*"
serde = { version = "1", features = ["derive"] }
tokenizers = { version = "*", default-features = false, features = ["unstable_wasm"] }
