[package]
name = "sonix_lyrics"
version = "0.1.0"
edition = "2021"
publish = false

[dependencies]
chrono = "0.4"
crossbeam-channel = "0.5"
crossterm = "0.28"
log = "0.4"
md5 = "0.7"
rand = "0.8"
ratatui = "0.29"
reqwest = { version = "0.12", default-features = false, features = ["blocking", "json", "rustls-tls"] }
serde = { version = "1", features = ["derive"] }
serde_json = "1"
simplelog = "0.12"
thiserror = "1"
urlencoding = "2"
