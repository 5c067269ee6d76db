[package]
name = "gitcooked"
version = "0.1.0"
edition = "2021"
publish = false

[dependencies]
axum = "*"
chrono = { version = "*", features = ["serde"] }
serde = { version = "*", features = ["derive"] }
serde_json = "*"
tokio = { version = "*", features = ["full"] }
tower-http = { version = "*", features = ["fs", "cors", "compression-full"] }
urlencoding = "*"
uuid = { version = "*", features = ["v5"] }
