[package]
name = "rust_yt"
version = "0.1.0"
edition = "2021"
publish = false

[dependencies]
backoff = "0.4"
dirs = "5"
reqwest = { version = "0.12", default-features = false, features = ["blocking", "rustls-tls"] }
rust-i18n = "3"
serde = { version = "1", features = ["derive"] }
serde_json = "1"
sys-locale = "0.3"
toml = "0.8"
zip = { version = "2", default-features = false, features = ["deflate"] }
