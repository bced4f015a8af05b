[package]
name = "gpu_collatz"
version = "0.1.0"
edition = "2021"
publish = false

[dependencies]
bytemuck = "1"
console_error_panic_hook = "0.1"
flume = "0.11"
pollster = "0.4"
wasm-bindgen = "0.2"
wasm-bindgen-futures = "0.4"
wgpu = "27"
