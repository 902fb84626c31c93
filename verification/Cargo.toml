[package]
name = "editor_core"
version = "0.1.0"
edition = "2021"
publish = false

[dependencies]
gvas = { version = "=0.8.0", features = ["serde"] }
serde = { version = "=1.0.229", features = ["derive"] }
serde_json = "=1.0.154"
thiserror = "=1.0.69"
clap = { version = "=4.6.7", features = ["derive"] }
lazy_static = "=1.5.1"
