[package]
name = "lsp_render"
version = "0.1.0"
edition = "2021"
publish = false

[dependencies]
serde_json = "1"
serde = { version = "1", features = ["derive"] }
lsp-types = "0.95"
url = "2"
