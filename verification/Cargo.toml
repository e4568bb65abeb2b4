[package]
name = "party_coordinator"
version = "0.1.0"
edition = "2021"
publish = false

[dependencies]
rand = "=0.10.3"
uuid = { version = "=1.27.0", features = ["v4"] }
jsonwebtoken = { version = "=11.1.0", features = ["rust_crypto"] }
serde = { version = "=1.0.229", features = ["derive"] }
serde_json = "=1.0.151"
envconfig = "=0.11.1"
tokio = { version = "=1.53.2", features = ["rt-multi-thread", "macros", "sync", "time"] }
