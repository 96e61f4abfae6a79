[package]
name = "force_graph"
version = "0.1.0"
edition = "2021"
publish = false

[dependencies]
derive_builder = "*"
rand = "*"
serde = { version = "*", features = ["derive"] }
serde_json = "*"
wasm-bindgen = "*"
