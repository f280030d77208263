[package]
name = "file_browser"
version = "0.1.0"
edition = "2021"
publish = false

[dependencies]
chrono = { version = "0.4", features = ["serde"] }
humansize = "2"
open = "*"
rand = "0.8"
serde = { version = "1", features = ["derive"] }
trash = "*"
walkdir = "2"
