[package]
name = "mamba_inference"
version = "0.1.0"
edition = "2021"
publish = false

[dependencies]
safetensors = "=0.8.0"
anyhow = "=1.0.104"
burn = { version = "0.19.1", default-features = false, features = ["ndarray"] }
candle-core = "=0.11.0"
candle-transformers = "=0.11.0"
hf-hub = { version = "=0.5.0", default-features = false, features = ["ureq"] }
log = "=0.4.34"
memmap2 = "=0.9.12"
pretty_env_logger = "=0.5.0"
tokenizers = { version = "=0.23.2", default-features = false, features = ["unstable_wasm"] }

[dev-dependencies]
half = "=2.7.1"
