[package]
name = "gateway"
version = "0.1.0"
edition = "2021"
publish = false

[dependencies]
uuid = { version = "*", features = ["v4"] }
tokio = { version = "*", features = ["rt-multi-thread", "macros", "signal", "net", "time", "sync"] }
axum = "*"
async-nats = "*"
serde = { version = "*", features = ["derive"] }
serde_json = "*"
tower-http = { version = "*", features = ["cors", "limit"] }

[dev-dependencies]
rmp = "*"
