[package]
name = "omnyssh"
version = "1.0.0"
edition = "2021"
publish = false

[dependencies]
anyhow = "1"
async-trait = "0.1"
chrono = "0.4"
crossterm = "0.28"
dirs = "5"
portable-pty = "0.8"
ratatui = "0.29"
russh = "0.45"
serde = { version = "1", features = ["derive"] }
tokio = { version = "1", features = ["full"] }
toml = "0.8"
tracing = "0.1"
vt100 = "0.15"
