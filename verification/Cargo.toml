[package]
name = "trojan-rust"
version = "0.1.0"
edition = "2021"
publish = false

[dependencies]
sha2 = "0.10"
hex = "0.4"
bytes = "1"
tokio = { version = "1", features = ["full"] }
tokio-rustls = "0.25"
rustls = "0.22"
rustls-pemfile = "2"
serde = { version = "1", features = ["derive"] }
toml = "0.8"
clap = { version = "4", features = ["derive"] }
tracing = "0.1"
tracing-subscriber = { version = "0.3", features = ["env-filter"] }
thiserror = "1"
anyhow = "1"
