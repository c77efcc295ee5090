[package]
name = "xdu-view"
version = "0.1.0"
edition = "2021"
publish = false

[dependencies]
anyhow = "1"
clap = { version = "4", features = ["derive"] }
crossterm = "*"
duckdb = "1"
infer = "*"
ratatui = "*"
