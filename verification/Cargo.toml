[package]
name = "tui_1password"
version = "0.1.0"
edition = "2021"
publish = false

[dependencies]
crossterm = "0.25"
fastrand = "2"
rpassword = "7"
serde = { version = "1", features = ["derive"] }
serde_json = "1"
serde_yaml = "0.9"
tracing = "0.1"
tracing-appender = "0.2"
tracing-subscriber = "0.3"
tui = "0.19"
