[package]
name = "giss"
version = "0.1.0"
edition = "2021"
publish = false

[dependencies]
anyhow = "*"
clap = { version = "*", features = ["derive"] }
serde = { version = "*", features = ["derive"] }
toml = "*"
which = "*"
tokio = { version = "*", features = ["rt", "macros"] }
crossterm = "*"
ratatui = "*"
syntect = { version = "*", default-features = false, features = ["default-fancy"] }
