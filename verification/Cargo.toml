[package]
name = "rust_json_client"
version = "0.5.1"
edition = "2021"
publish = false

[dependencies]
backon = "1"
bon = "3"
reqwest = { version = "0.12", default-features = false, features = ["rustls-tls"] }
serde = { version = "1", features = ["derive"] }
serde_json = "1"
thiserror = "2"
tokio = { version = "1", features = ["time", "macros", "rt"] }
tracing = "0.1"
url = "2"
