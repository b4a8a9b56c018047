[package]
name = "cursor_shower"
version = "0.1.0"
edition = "2021"
publish = false

[dependencies]
device_query = "*"
serde = { version = "*", features = ["derive"] }
serde_jsonrc = "*"
