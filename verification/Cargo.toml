[package]
name = "local_mcp_servers"
version = "0.1.0"
edition = "2021"
publish = false

[dependencies]
url = "*"
rand = "*"
chrono = "*"
axum = "*"
tokio = { version = "*", features = ["full"] }
serde = { version = "*", features = ["derive"] }
serde_json = "*"
serde_yaml = "*"
futures = "*"
tokio-stream = "*"
reqwest = { version = "*", default-features = false, features = ["json"] }
trust-dns-resolver = "*"
