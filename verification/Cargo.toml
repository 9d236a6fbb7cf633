[package]
name = "protector_view"
version = "0.1.0"
edition = "2021"
publish = false

[dependencies]
petgraph = "=0.8.3"
sigstore = { version = "=0.10.0", default-features = false, features = ["cosign-rustls-tls"] }
serde = { version = "=1.0.229", features = ["derive"] }
tracing = "=0.1.44"

[dev-dependencies]
serde_json = "=1.0.154"
