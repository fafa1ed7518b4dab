[package]
name = "wasm_vm"
version = "0.1.0"
edition = "2021"
publish = false

[dependencies]
wasmparser = "=0.263.0"
libc = "0.2"
log = "0.4"
env_logger = "0.11"
