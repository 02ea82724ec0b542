[package]
name = "dopepad"
version = "0.1.0"
edition = "2021"
publish = false

[dependencies]
ropey = { version = "*", default-features = false }
anyhow = "*"
clap = { version = "*", features = ["derive"] }
crossterm = "*"
ratatui = "*"
serde = { version = "*", features = ["derive"] }
serde_json = "*"
thiserror = "*"
tui-textarea = "*"
unicode-width = "*"
