[package]
name = "identity_wallet"
version = "0.1.0"
edition = "2021"
publish = false

[dependencies]
axum = "0.6"
axum-server = { version = "0.5", features = ["tls-rustls"] }
chrono = "0.4"
dotenv = "0.15"
rand = "0.8"
reqwest = { version = "0.11", default-features = false, features = ["json"] }
serde = { version = "1", features = ["derive"] }
serde_json = "1"
tokio = { version = "1", features = ["rt-multi-thread", "macros", "net", "io-util"] }
tokio-postgres = "0.7"
