[package]
name = "cg_bridge"
version = "0.1.0"
edition = "2021"
publish = false

[dependencies]
async-openai = { version = "=0.36.1", default-features = false, features = ["response-types"] }
axum = "=0.8.9"
futures = "=0.3.34"
gemini-rust = "=2.1.0"
serde = { version = "1", features = ["derive"] }
serde_json = "=1.0.154"
subtle = "=2.6.1"
tokio = { version = "1", features = ["io-util", "macros", "net", "process", "rt-multi-thread", "sync", "time"] }
tokio-stream = "0.1"
uuid = { version = "=1.29.0", features = ["v4"] }
