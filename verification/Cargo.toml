[package]
name = "sermonizer"
version = "0.1.0"
edition = "2021"
publish = false

[dependencies]
anyhow = "1"
chrono = { version = "0.4", default-features = false, features = ["std", "now"] }
clap = { version = "4", features = ["derive"] }
crossterm = "0.28"
ctrlc = "3"
ratatui = "0.29"
serialport = { version = "4", default-features = false }
tokio = { version = "1", features = ["rt-multi-thread", "macros", "sync", "time"] }
