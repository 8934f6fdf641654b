[package]
name = "wasm_memory"
version = "0.1.0"
edition = "2021"
publish = false

[dependencies]
lazy_static = "*"
rutie = "*"
wasmer-runtime = "*"
