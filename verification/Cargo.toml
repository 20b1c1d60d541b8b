[package]
name = "tee_guardian"
version = "0.1.0"
edition = "2021"
publish = false

[dependencies]
sha2 = "=0.10.9"
base64 = "=0.22.1"
rand = "=0.8.8"
governor = "=0.6.3"
prometheus = { version = "=0.13.4", default-features = false }
x509-parser = "=0.16.0"
hex = "=0.4.3"
serde = { version = "=1.0.229", features = ["derive"] }
serde_json = "=1.0.154"
tokio = { version = "=1.54.1", features = ["full"] }
axum = "=0.7.9"
tower-http = { version = "=0.5.2", features = ["trace"] }
reqwest = { version = "=0.12.28", default-features = false, features = ["json"] }
tracing = "=0.1.44"
tracing-subscriber = "=0.3.23"
chrono = "=0.4.45"
openraft = { version = "=0.9.25", features = ["serde", "storage-v2"] }
bincode = "=1.3.3"
once_cell = "=1.21.4"
lazy_static = "=1.5.1"
kbs-types = "=0.18.0"
anyhow = "=1.0.104"
thiserror = "=1.0.69"
zeroize = { version = "=1.9.1", features = ["derive"] }
