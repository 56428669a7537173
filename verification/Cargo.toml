[package]
name = "chessv2"
version = "0.1.0"
edition = "2021"
publish = false

[dependencies]
rayon = "1"
tauri = { version = "2", default-features = false }
