[package]
name = "so_server_rust"
version = "0.1.0"
edition = "2021"

[dependencies]
chrono = { version = "0.4", default-features = false, features = ["std"] }
rand = "0.9"
sha2 = "0.10"
