[package]
name = "rarian"
version = "0.1.0"
edition = "2021"
publish = false

[dependencies]
active-win-pos-rs = "0.8"
anyhow = "1"
clap = { version = "4", features = ["derive"] }
directories = "5"
itertools = "0.13"
notify = { version = "6", features = ["serde"] }
ratatui = "0.27"
serde = { version = "1", features = ["derive"] }
serde_json = "1"
sysinfo = "0.29"
toml = "0.8"
ulid = { version = "1", features = ["serde"] }
