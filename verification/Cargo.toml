[package]
name = "pktreplay"
version = "0.1.0"
edition = "2021"
publish = false

[dependencies]
anyhow = "=1.0.104"
clap = { version = "=4.6.7", features = ["derive"] }
signal-hook = "=0.3.18"
tracing = "=0.1.44"
tracing-subscriber = "=0.3.23"
