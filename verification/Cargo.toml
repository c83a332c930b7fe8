[package]
name = "idk"
version = "0.1.0"
edition = "2021"
publish = false

[dependencies]
regex = "1"
lazy_static = "1"
structopt = "0.3"
strum = { version = "0.24", features = ["derive"] }
wasm-bindgen = "0.2"
console_error_panic_hook = "0.1"
