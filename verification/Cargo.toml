[package]
name = "siglauncher"
version = "0.5.0"
edition = "2021"
publish = false

[dependencies]
serde_json = "=1.0.154"
serde = { version = "=1.0.229", features = ["derive"] }
iced = { version = "=0.9.0", default-features = false, features = ["glow"] }
open = "=5.4.5"
reqwest = { version = "=0.11.27", default-features = false, features = ["rustls-tls"] }
tokio = { version = "=1.54.1", features = ["rt-multi-thread", "macros"] }
zip = { version = "=0.6.6", default-features = false, features = ["deflate"] }
