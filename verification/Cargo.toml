[package]
name = "quadratic_map_attractor"
version = "0.1.0"
edition = "2021"
publish = false

[dependencies]
rand = "0.8"
wasm-bindgen = "0.2"
pyo3 = { version = "0.20", features = ["extension-module"] }
