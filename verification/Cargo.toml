[package]
name = "buck_tui"
version = "0.1.0"
edition = "2021"
publish = false

[dependencies]
anyhow = "*"
clap = { version = "*", features = ["derive"] }
crossterm = "=0.28.1"
dirs = "*"
nerd-font-symbols = "*"
ratatui = "=0.29.0"
serde = { version = "*", features = ["derive"] }
serde_json = "*"
tokio = { version = "*", features = ["full"] }
tokio-util = { version = "*", features = ["rt"] }
tracing = "*"
tracing-appender = "*"
tracing-subscriber = "*"
uuid = { version = "*", features = ["v4"] }
