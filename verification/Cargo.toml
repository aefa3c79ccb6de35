[package]
name = "admin_console"
version = "0.1.0"
edition = "2021"
publish = false

[dependencies]
anyhow = "=1.0.104"
arboard = "=3.6.1"
chrono = "=0.4.45"
crossterm = "=0.28.1"
encoding_rs = "=0.8.42"
notify-rust = "=4.18.2"
ratatui = "=0.28.1"
rayon = "=1.12.0"
serde = { version = "=1.0.229", features = ["derive"] }
serde_json = "=1.0.151"
sysinfo = "=0.39.6"
tui-textarea = { version = "=0.6.1", features = ["search"] }
