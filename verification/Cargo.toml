[package]
name = "helix"
version = "1.0.0"
edition = "2021"
publish = false

[dependencies]
chacha20poly1305 = "0.10"
rand = "0.8"
sha2 = "0.10"
rusqlite = { version = "0.31", features = ["bundled"] }
walkdir = "2"
clap = { version = "4", features = ["derive"] }
rpassword = "7"

[dev-dependencies]
hex = "0.4"
