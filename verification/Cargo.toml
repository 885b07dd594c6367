[package]
name = "letterboxd"
version = "0.1.0"
edition = "2021"
publish = false

[dependencies]
rust-crypto = "0.2"
uuid = { version = "1", features = ["v4"] }
hyper = { version = "0.14", features = ["client", "http1", "tcp", "stream"] }
hyper-tls = "0.5"
futures = "0.3"
serde = { version = "1", features = ["derive"] }
serde_json = "1"
serde_url_params = "0.2"

[dev-dependencies]
hex = "0.4"
