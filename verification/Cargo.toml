[package]
name = "ict_server"
version = "0.1.0"
edition = "2021"
publish = false

[dependencies]
axum = "0.7"
axum-server = { version = "0.7", features = ["tls-rustls"] }
base64 = "0.22"
clap = "4"
config = { version = "0.14", default-features = false, features = ["toml"] }
env_logger = "0.11"
log = "0.4"
rand = "0.8"
rouille = "3"
rsa = { version = "0.9", features = ["sha2"] }
rusqlite = { version = "0.32", features = ["bundled"] }
serde = { version = "1", features = ["derive"] }
serde_json = "1"
thiserror = "1"
tokio = { version = "1", features = ["rt-multi-thread", "macros"] }
totp-rs = { version = "5", features = ["gen_secret"] }
uuid = { version = "1", features = ["v4"] }
