[package]
name = "rudderstack"
version = "0.1.0"
edition = "2021"
publish = false

[dependencies]
dashmap = "*"
uuid = { version = "*", features = ["v4"] }
serde = { version = "*", features = ["derive"] }
serde_json = "*"
thiserror = "*"
chrono = "*"
rudderanalytics = "*"
