[package]
name = "dtui"
version = "0.1.0"
edition = "2021"
publish = false

[dependencies]
bollard = "*"
chrono = "*"
clap = { version = "*", features = ["derive"] }
crossterm = "*"
dirs = "*"
futures-util = "*"
ratatui = "*"
serde = { version = "*", features = ["derive"] }
serde_yaml = "*"
tokio = { version = "*", features = ["rt-multi-thread", "macros", "sync", "time"] }
