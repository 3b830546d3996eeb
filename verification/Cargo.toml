[package]
name = "straw_boss"
version = "0.1.0"
edition = "2021"
publish = false

[dependencies]
clap = "2"
daemonize = "*"
duct = "*"
rmp-serde = "*"
serde = { version = "1", features = ["derive"] }
serde_yaml = "*"
shellwords = "*"
