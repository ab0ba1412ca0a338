[package]
name = "folio_core"
version = "0.1.0"
edition = "2021"
publish = false

[dependencies]
anyhow = "*"
blake3 = "*"
chrono = "*"
clap = { version = "*", features = ["derive"] }
kamadak-exif = "*"
tracing-subscriber = "*"
walkdir = "*"
