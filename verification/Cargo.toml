[package]
name = "soulframe_language_downloader"
version = "0.1.0"
edition = "2021"
publish = false

[dependencies]
anyhow = "1"
base64 = "0.22"
clap = { version = "4", features = ["derive"] }
libloading = "0.8"
md5 = "0.7"
rand = "0.8"
reqwest = { version = "0.12", default-features = false, features = ["blocking"] }
serde_json = "1"
