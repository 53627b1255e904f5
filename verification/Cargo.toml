[package]
name = "chip8_toolchain"
version = "0.1.0"
edition = "2021"
publish = false

[dependencies]
array-init = "2"
getrandom = { version = "0.2", features = ["js"] }
wasm-bindgen = { version = "0.2", features = ["serde-serialize"] }
console_error_panic_hook = "0.1"
