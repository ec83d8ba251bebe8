[package]
name = "text2track"
version = "0.1.0"
edition = "2021"
publish = false

[dependencies]
dasp = { version = "*", features = ["signal"] }
hound = "*"
wasm-bindgen = "*"
