[package]
name = "switchboard"
version = "0.1.0"
edition = "2021"
publish = false

[dependencies]
axum = "0.6"
bytes = "1"
chrono = "0.4"
clap = "4"
directories = "5"
dotenvy = "0.15"
futures-util = "0.3"
hyper = { version = "0.14", features = ["full"] }
libc = "0.2"
reqwest = { version = "0.11", default-features = false, features = ["rustls-tls", "stream"] }
secrecy = "0.10"
serde = { version = "1", features = ["derive"] }
serde_json = "1"
thiserror = "1"
tokio = { version = "1", features = ["full"] }
tracing = "0.1"
tracing-appender = "0.2"
tracing-subscriber = { version = "0.3", features = ["env-filter", "json"] }
uuid = { version = "1", features = ["v4"] }
