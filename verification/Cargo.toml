[package]
name = "built_in_hybrid_server"
version = "0.1.0"
edition = "2021"
publish = false

[dependencies]
axum = "*"
gcp_auth = "*"
gemini-rs = "*"
serde = { version = "*", features = ["derive"] }
serde_json = "*"
serde_with = { version = "*", features = ["base64", "macros"] }
tokenizers = "*"
tokio = { version = "*", features = ["full"] }
tokio-stream = "*"
tower-http = { version = "*", features = ["cors", "fs", "compression-full"] }
tracing = "*"
tracing-subscriber = "*"
