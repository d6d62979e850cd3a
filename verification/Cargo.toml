[package]
name = "tokio_chat"
version = "0.1.0"
edition = "2021"
publish = false

[dependencies]
byteorder = "=1.5.0"
serde = { version = "=1.0.229", features = ["derive"] }
serde_json = "=1.0.154"
futures = "=0.1.31"
tokio-core = "=0.1.18"
cursive = { version = "=0.10.0", default-features = false, features = ["termion-backend"] }
unicode-width = "=0.1.14"
