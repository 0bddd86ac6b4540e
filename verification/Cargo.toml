[package]
name = "dockerrs"
version = "0.1.0"
edition = "2021"
publish = false

[dependencies]
bollard = "0.18"
futures-util = "0.3"
ratatui = "0.29"
tokio = { version = "1", features = ["macros", "process", "rt-multi-thread", "sync", "time"] }
walkdir = "2"
