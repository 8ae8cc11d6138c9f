[package]
name = "registry_core"
version = "0.1.0"
edition = "2021"
publish = false

[dependencies]
axum = "0.6"
bytes = "1"
bytesize = "1"
chrono = "0.4"
serde = { version = "1", features = ["derive"] }
serde_json = "1"
sha256 = "1"
tokio = { version = "1", features = ["rt-multi-thread", "macros"] }
tower = "0.4"
uuid = { version = "1", features = ["v4"] }
