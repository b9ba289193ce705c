[package]
name = "tbd_cfg"
version = "0.1.0"
edition = "2021"
publish = false

[dependencies]
anyhow = "=1.0.104"
clap = { version = "=4.5.61", features = ["derive"] }
serde = { version = "=1.0.229", features = ["derive"] }
serde_json = "=1.0.151"
tokio = { version = "=1.53.2", features = ["macros", "process", "fs", "rt-multi-thread", "io-util"] }
toml = { version = "=0.8.23" }
tracing-subscriber = "=0.3.23"
