[package]
name = "gitopo"
version = "0.1.0"
edition = "2021"
publish = false

[dependencies]
anyhow = "1"
chrono = "0.4"
clap = { version = "4", features = ["derive"] }
crossterm = "0.28"
git2 = { version = "0.20", default-features = false }
ratatui = "0.29"
unicode-width = "0.2"
