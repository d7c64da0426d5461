[package]
name = "io_unity"
version = "0.1.0"
edition = "2021"
publish = false

[dependencies]
lz4 = "1"
regex = "1"
zstd = "0.13"
tar = "0.4"
serde = { version = "1", features = ["derive"] }
serde_json = "1"
walkdir = "2"
anyhow = "1"
glam = "0.24"
