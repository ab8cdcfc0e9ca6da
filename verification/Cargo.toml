[package]
name = "page_manager"
version = "0.1.0"
edition = "2021"
publish = false

[dependencies]
url = "2"
chrono = { version = "0.4", default-features = false, features = ["clock", "std"] }
uuid = { version = "1", features = ["v4"] }
serde = { version = "1", features = ["derive"] }
serde_json = "1"
dirs = "5"
