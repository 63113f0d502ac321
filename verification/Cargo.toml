[package]
name = "canvas_pdf"
version = "0.1.0"
edition = "2021"
publish = false

[dependencies]
pdf-writer = "*"
serde_json = "1"
wasm-bindgen = "0.2"
