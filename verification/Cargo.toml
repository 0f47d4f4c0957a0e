[package]
name = "cargo_cmake_bridge"
version = "0.1.0"
edition = "2021"
publish = false

[dependencies]
anyhow = "=1.0.104"
cargo_metadata = "=0.18.1"
clap = { version = "=4.6.7", features = ["derive"] }
serde_json = "=1.0.154"
