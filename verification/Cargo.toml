[package]
name = "plugin_host"
version = "0.1.0"
edition = "2021"
publish = false

[dependencies]
serde_json = "1"
serde = { version = "1", features = ["derive"] }
toml = "*"
home = "*"
anyhow = "1"
wasmer = "3.1"
wasmer-wasi = "3.1"
xi-rpc = "*"
