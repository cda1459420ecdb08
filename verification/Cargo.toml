[package]
name = "samba_exporter"
version = "0.1.0"
edition = "2021"
publish = false

[dependencies]
axum = "*"
chrono = "*"
clap = { version = "*", features = ["derive", "env"] }
lazy_static = "*"
procfs = "*"
prometheus = "*"
tokio = { version = "*", features = ["rt-multi-thread", "net", "macros"] }
