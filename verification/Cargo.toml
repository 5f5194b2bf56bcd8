[package]
name = "openchad"
version = "0.1.0"
edition = "2021"
publish = false

[dependencies]
minijinja = "=2.24.0"
chrono = "=0.4.45"
serde_json = "=1.0.151"
serde = { version = "=1.0.229", features = ["derive"] }
reqwest = { version = "=0.13.5", default-features = false, features = ["json", "query", "stream"] }
tokio = { version = "=1.53.2", features = ["macros", "net", "rt-multi-thread", "io-util", "sync"] }
tokio-util = { version = "=0.7.19", features = ["io"] }
axum = "=0.8.9"
futures = "=0.3.34"
