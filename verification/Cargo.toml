[package]
name = "craft_worker"
version = "0.1.0"
edition = "2021"
publish = false

[dependencies]
js-sys = "0.3"
serde_json = "1"
tokio = { version = "1", features = ["io-util", "macros", "rt", "sync", "time"] }
wasm-bindgen = "0.2"
wasm-bindgen-futures = "0.4"
worker = "0.8"
