[package]
name = "wasm_tracer"
version = "0.1.0"
edition = "2021"
publish = false

[dependencies]
regex = "=1.13.1"
wasmi = "=0.11.0"
