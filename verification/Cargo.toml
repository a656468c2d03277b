[package]
name = "ingwe"
version = "0.1.0"
edition = "2021"
publish = false

[dependencies]
url = "=2.5.8"
serde = { version = "=1.0.229", features = ["derive"] }
thiserror = "=1.0.69"
log = "=0.4.35"
tokio = { version = "=1.54.1", features = ["time"] }
reqwest = { version = "=0.12.28", default-features = false }
tauri = { version = "2", default-features = false }
