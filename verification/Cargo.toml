[package]
name = "pessoas"
version = "0.1.0"
edition = "2021"
publish = false

[dependencies]
uuid = { version = "1", features = ["v7"] }
serde = { version = "1", features = ["derive"] }
axum = "0.7"
axum-server = "0.7"
tokio = { version = "1", features = ["full"] }
