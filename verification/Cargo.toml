[package]
name = "kueueski"
version = "0.1.0"
edition = "2021"
publish = false

[dependencies]
anyhow = "1"
bullmq-official = "*"
clap = { version = "4", features = ["derive", "env"] }
humantime = "2"
libc = "0.2"
serde = { version = "1", features = ["derive"] }
serde_json = "1"
tokio = { version = "1", features = ["io-util", "macros", "process", "rt-multi-thread", "signal", "sync", "time"] }
