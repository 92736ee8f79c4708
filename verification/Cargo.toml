[package]
name = "kondo"
version = "0.1.0"
edition = "2021"
publish = false

[dependencies]
chrono = "*"
clap = { version = "*", features = ["derive"] }
color-eyre = "*"
config = { version = "*", default-features = false, features = ["toml"] }
crossterm = "*"
dirs = "*"
ratatui = "*"
serde = { version = "*", features = ["derive"] }
sqlx = { version = "*", default-features = false, features = ["sqlite", "runtime-tokio"] }
tempfile = "*"
tokio = { version = "*", features = ["fs", "macros", "process", "rt-multi-thread", "sync"] }
