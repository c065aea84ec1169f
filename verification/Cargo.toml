[package]
name = "soundtouch"
version = "0.1.0"
edition = "2021"
publish = false

[dependencies]
hound = "*"
thiserror = "*"
wasm-bindgen = "*"
console_error_panic_hook = "*"
