[package]
name = "hailsplay"
version = "0.1.0"
edition = "2021"
publish = false

[dependencies]
anyhow = "=1.0.104"
axum = { version = "=0.6.20", features = ["ws", "headers"] }
axum-range = "=0.3.0"
bytes = "=1.12.1"
chrono = { version = "=0.4.45", features = ["serde"] }
filenamify = "=0.1.2"
futures = "=0.3.34"
headers = "=0.3.9"
log = "=0.4.34"
mime = "=0.3.17"
pin-project = "=1.1.13"
pretty_env_logger = "=0.5.0"
reqwest = { version = "=0.11.27", default-features = false, features = ["rustls-tls"] }
rusqlite = { version = "=0.41.0", features = ["bundled"] }
serde = { version = "=1.0.229", features = ["derive"] }
serde_json = "=1.0.154"
sha256 = { version = "=1.6.0", default-features = false }
structopt = "=0.3.26"
thiserror = "=1.0.69"
tokio = { version = "=1.54.1", features = ["full"] }
tokio-stream = { version = "=0.1.19", features = ["sync"] }
toml = "=0.8.23"
url = { version = "=2.5.8", features = ["serde"] }
uuid = { version = "=1.29.0", features = ["v4", "serde"] }
