[package]
name = "lapce_core"
version = "0.1.0"
edition = "2021"
publish = false

[dependencies]
druid = "0.7"
lsp-types = "*"
serde_json = "1"
strum = { version = "*", features = ["derive"] }
crossbeam-channel = "0.5"
