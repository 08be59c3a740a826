[package]
name = "pipebot"
version = "0.1.0"
edition = "2021"
publish = false

[dependencies]
anyhow = "1"
clap = { version = "4", features = ["derive", "env"] }
serenity = "0.12"
tokio = { version = "1", features = ["macros", "rt-multi-thread", "io-util", "io-std", "net", "fs"] }
