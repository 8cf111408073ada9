[package]
name = "hyper-mcp-remote"
version = "0.1.0"
edition = "2021"
publish = false

[dependencies]
anyhow = "=1.0.104"
async-trait = "=0.1.92"
axum = "=0.8.9"
clap = { version = "=4.6.7", features = ["derive"] }
ctor = "=1.0.13"
directories = "=6.0.0"
dirs = "=7.0.0"
globset = "=0.4.21"
hex = "=0.4.3"
http = "=1.5.0"
keyring = { version = "=3.6.3", features = ["apple-native", "windows-native", "linux-native"] }
oauth2 = "=5.0.0"
reqwest = { version = "=0.13.5", features = ["json"] }
rmcp = { version = "=1.8.0", features = ["client", "server", "auth", "elicitation", "transport-io", "transport-streamable-http-client-reqwest"] }
self_update = { version = "=0.44.0", default-features = false, features = ["reqwest", "rustls", "archive-tar", "compression-flate2", "signatures"] }
self-update-extras = "=0.2.0"
serde = { version = "=1.0.229", features = ["derive"] }
serde_json = "=1.0.154"
sha2 = "=0.11.1"
thiserror = "=2.0.21"
tokio = { version = "=1.54.1", features = ["full"] }
tokio-util = "=0.7.20"
tracing = "=0.1.44"
tracing-appender = "=0.2.5"
tracing-subscriber = { version = "=0.3.23", features = ["env-filter"] }
url = "=2.5.8"
webbrowser = "=1.2.6"
