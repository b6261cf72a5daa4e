[package]
name = "message-bus"
version = "0.1.0"
edition = "2021"
publish = false

[dependencies]
async-stream = "0.3"
bytes = "1"
futures = "0.3"
rand = "0.9"
reqwest = { version = "0.12", default-features = false, features = ["charset", "http2", "rustls-tls", "stream"] }
serde = { version = "1", features = ["derive"] }
serde_json = "1"
thiserror = "2"
tokio = { version = "1", features = ["macros", "rt", "rt-multi-thread", "sync", "time"] }
tokio-util = { version = "0.7", features = ["codec"] }
