[package]
name = "sop_builds"
version = "0.1.0"
edition = "2021"
publish = false

[dependencies]
axum = "0.6"
maud = "0.25"
serde = { version = "1", features = ["derive"] }
serde_json = "1"
tokio = { version = "1", features = ["full"] }
tower-http = { version = "0.4", features = ["fs"] }
