[package]
name = "service_access"
version = "0.1.0"
edition = "2021"
publish = false

[dependencies]
async-trait = "0.1"
secrecy = "0.10"
serde = { version = "1", features = ["derive"] }
serde_json = "1"
thiserror = "2"
tracing = "0.1"
uuid = "1"
