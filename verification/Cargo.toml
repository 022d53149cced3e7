[package]
name = "zero_trust_gateway"
version = "0.1.0"
edition = "2021"
publish = false

[dependencies]
ring = "=0.17.14"
base64 = "=0.22.1"
chrono = "=0.4.45"
axum = "=0.8.9"
tokio = { version = "=1.54.1", features = ["macros", "rt-multi-thread", "net", "time", "sync"] }
reqwest = { version = "=0.12.28", default-features = false, features = ["rustls-tls", "stream"] }
jsonwebtoken = { version = "=10.4.0", default-features = false, features = ["rust_crypto", "use_pem"] }
moka = { version = "=0.12.16", features = ["future"] }
redis = { version = "=1.8.1", features = ["tokio-comp"] }
serde = { version = "=1.0.229", features = ["derive"] }
serde_json = "=1.0.154"
serde_yaml = "=0.9.34"
ipnetwork = "=0.21.1"
rust-embed = "=8.13.0"
tracing = "=0.1.44"
tracing-subscriber = "=0.3.23"
futures-util = "=0.3.34"
tokio-stream = "=0.1.19"
tract-onnx = "=0.21.12"
# Not called by this crate: keeps the kstring that tract-onnx brings in
# (through tract-linalg and liquid) below 2.0.3, as later releases need a
# newer Rust compiler than the one this crate is built with.
kstring = ">=2.0.0, <2.0.3"
