[package]
name = "gcp_auth"
version = "0.1.0"
edition = "2021"
publish = false

[dependencies]
async-trait = "=0.1.92"
hyper = { version = "=0.14.32", features = ["client", "http1", "tcp"] }
hyper-rustls = "=0.24.2"
rustls = "=0.21.12"
rustls-pemfile = "=1.0.4"
serde = { version = "=1.0.229", features = ["derive"] }
serde_json = "=1.0.154"
tokio = { version = "=1.54.1", features = ["sync", "time"] }

[dev-dependencies]
base64 = "=0.21.7"
form_urlencoded = "1"
