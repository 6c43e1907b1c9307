[package]
name = "accordion_task"
version = "0.1.0"
edition = "2021"
publish = false

[dependencies]
chrono = "0.4"
clap = { version = "4", features = ["derive"] }
cli-log = "2"
color-eyre = "0.6"
crossterm = "0.28"
csv = "1"
directories = "*"
ratatui = "0.29"
serde = { version = "1", features = ["derive"] }
toml = "0.8"
tui-textarea = "0.7"
