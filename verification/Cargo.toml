[package]
name = "afrim_engine"
version = "0.1.0"
edition = "2021"
publish = false

[dependencies]
afrim-preprocessor = "=0.6.3"
indexmap = { version = "=2.14.2", features = ["serde"] }
rhai = { version = "=1.27.0", features = ["only_i32", "no_float", "no_closure", "no_position", "no_custom_syntax"] }
serde = { version = "=1.0.229", features = ["derive"] }
serde_json = "=1.0.154"
serde-wasm-bindgen = "=0.6.5"
toml = "=1.1.8"
wasm-bindgen = "=0.2.129"
