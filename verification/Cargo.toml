[package]
name = "domain_checker"
version = "0.1.0"
edition = "2021"
publish = false

[dependencies]
serde_json = "1"
chrono = "0.4"
url = "2"
serde = { version = "1", features = ["derive"] }
reqwest = { version = "0.12", default-features = false }
tokio = { version = "1", features = ["rt", "time"] }
