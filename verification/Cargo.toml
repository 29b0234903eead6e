[package]
name = "aether"
version = "0.1.0"
edition = "2021"
publish = false

[dependencies]
axum = "*"
base64 = "=0.22.1"
chrono = "=0.4.45"
clap = { version = "*", features = ["derive"] }
colored = "*"
jsonwebtoken = { version = "=11.1.0", features = ["rust_crypto"] }
rand = "=0.8.8"
serde = { version = "*", features = ["derive"] }
serde_json = "=1.0.151"
sha2 = "=0.11.0"
tokio = { version = "*", features = ["rt-multi-thread", "net", "macros"] }
toml = "*"
tower = "*"
tower-http = { version = "*", features = ["trace"] }
tracing = "*"
tracing-subscriber = "*"
