[package]
name = "awake"
version = "0.1.0"
edition = "2021"
publish = false

[dependencies]
chrono = "0.4"
clap = { version = "4", features = ["derive"] }
core-foundation = "0.9"
daemonize = "0.5"
exec = "0.3"
libloading = "0.8"
signal-hook = "0.3"
