[package]
name = "web_bridge"
version = "0.1.0"
edition = "2021"
publish = false

[dependencies]
axum = { version = "=0.8.9", features = ["ws"] }
futures-util = "=0.3.34"
serde = { version = "1", features = ["derive"] }
serde_json = "=1.0.154"
tokio = { version = "=1.54.1", features = ["macros", "net", "rt-multi-thread", "sync", "time"] }
tower-http = { version = "=0.6.11", features = ["cors"] }
uuid = { version = "=1.29.0", features = ["v4"] }
