[package]
name = "laverna"
version = "0.4.0"
edition = "2021"
publish = false

[dependencies]
anyhow = "1"
chrono = "0.4"
serde = { version = "1", features = ["derive"] }
serde_json = "1"
thiserror = "2"
tokio = { version = "1", features = ["full"] }
toml = "0.8"
ureq = { version = "3", features = ["json"] }
urlencoding = "2"
