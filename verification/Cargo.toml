[package]
name = "rmcp_client"
version = "0.1.0"
edition = "2021"
publish = false

[dependencies]
anyhow = "=1.0.104"
dirs = "=7.0.0"
reqwest = { version = "=0.13.5", default-features = false }
rmcp = "=3.5.1"
serde = "=1.0.229"
serde_json = "=1.0.151"
tokio = { version = "=1.53.2", default-features = false, features = ["rt", "time"] }
tracing = "=0.1.44"
