[package]
name = "cylon"
version = "0.1.0"
edition = "2021"
publish = false

[dependencies]
anyhow = "*"
candle-core = "*"
candle-nn = "*"
candle-transformers = "*"
chrono = "*"
clap = { version = "*", features = ["derive", "env"] }
minijinja = "*"
serde = { version = "*", features = ["derive"] }
serde_json = "*"
serde_yaml = "*"
tokenizers = "*"
tokio = { version = "*", features = ["full"] }
tonic = "*"
uuid = { version = "*", features = ["v4"] }
