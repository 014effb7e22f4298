[package]
name = "kimchi"
version = "0.1.0"
edition = "2021"
publish = false

[dependencies]
ark-ff = { version = "=0.3.0", features = ["std"] }
ark-poly = "=0.3.0"
ark-pallas = { version = "=0.3.0", default-features = false, features = ["base_field"] }
num-traits = "=0.2.19"
itertools = "=0.10.5"
serde = { version = "=1.0.229", features = ["derive"] }
serde_with = "=1.14.0"
wasm-bindgen = "=0.2.130"
