[package]
name = "wandb_ft"
version = "0.1.0"
edition = "2021"
publish = false

[dependencies]
base64 = "0.22"
md5 = "*"
sha2 = "0.10"
serde = { version = "1", features = ["derive"] }
serde_json = "1"
image = { version = "0.25", default-features = false, features = ["png", "jpeg"] }
graphql_client = "*"
reqwest = { version = "0.12", default-features = false, features = ["json", "rustls-tls"] }
pyo3 = "*"
numpy = "*"
pyo3-async-runtimes = { version = "*", features = ["tokio-runtime"] }
tempfile = "3"
thiserror = "*"
