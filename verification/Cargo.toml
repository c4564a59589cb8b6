[package]
name = "mtui"
version = "0.1.0"
edition = "2021"
publish = false

[dependencies]
clap = { version = "4", features = ["derive"] }
crossterm = "*"
ratatui = "*"
russh = "*"
serde = { version = "1", features = ["derive"] }
serde_json = "1"
ssh2-config = "*"
tokio = { version = "1", features = ["full"] }
