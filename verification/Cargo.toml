[package]
name = "gladiator"
version = "0.1.0"
edition = "2021"
publish = false

[dependencies]
serde = { version = "1", features = ["derive"] }
serde_json = "1"
regex = "1"
html2md = "0.2"
glob = "0.3"
ignore = "0.4"
uuid = { version = "1", features = ["v4"] }
chrono = "0.4"
tokio = { version = "1", features = ["full"] }
futures = "0.3"
async-trait = "0.1"
thiserror = "2"
tracing = "0.1"
toml = "0.8"
axum = "0.8"
tower-http = { version = "0.6", features = ["cors"] }
reqwest = { version = "0.12", default-features = false, features = ["json", "stream"] }
rmcp = { version = "0.15", features = ["client", "transport-child-process"] }
