[package]
name = "what3words"
version = "0.1.0"
edition = "2021"
publish = false

[dependencies]
http = "=1.5.0"
reqwest = { version = "=0.13.5", default-features = false, features = ["blocking", "json", "query"] }
serde = { version = "=1.0.229", features = ["derive"] }
serde_json = "=1.0.151"
