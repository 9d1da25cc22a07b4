[package]
name = "glsl2wgsl"
version = "0.1.0"
edition = "2021"
publish = false

[dependencies]
itertools = "=0.10.5"
wasm-bindgen = "=0.2.130"

[dev-dependencies]
nom = "7"
