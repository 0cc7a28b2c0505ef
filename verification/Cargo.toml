[package]
name = "pressure_kernel"
version = "0.1.0"
edition = "2021"
publish = false

[dependencies]
uuid = { version = "*", features = ["v4", "v5"] }
rand = "*"
tokio = { version = "*", features = ["rt-multi-thread", "macros", "time", "sync"] }
clap = { version = "*", features = ["derive", "env"] }
serde = { version = "*", features = ["derive"] }
serde_json = "*"
anyhow = "*"
chrono = "*"
regex = "*"
tracing = "*"
tracing-subscriber = { version = "*", features = ["env-filter"] }
ollama-rs = "*"
