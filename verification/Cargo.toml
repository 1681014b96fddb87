[package]
name = "linker"
version = "0.1.0"
edition = "2021"
publish = false

[dependencies]
hex = "0.4"
parity-wasm = "*"
wasm-bindgen = "0.2"
