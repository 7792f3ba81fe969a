[package]
name = "usb_bridge"
version = "0.1.0"
edition = "2021"
publish = false

[dependencies]
directories = "=6.0.0"
url = "=2.5.8"
uuid = { version = "=1.29.0", features = ["v4"] }
serde = { version = "=1.0.229", features = ["derive"] }
serde_json = "=1.0.154"
thiserror = "=2.0.21"
reqwest = { version = "=0.12.28", default-features = false, features = ["blocking", "json", "rustls-tls"] }
axum = "=0.8.9"
tokio = { version = "=1.54.1", features = ["full"] }
tracing = "=0.1.44"
tracing-subscriber = { version = "=0.3.23", features = ["env-filter", "fmt"] }
clap = { version = "=4.6.7", features = ["derive"] }
