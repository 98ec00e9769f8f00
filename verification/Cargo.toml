[package]
name = "siri_remote"
version = "0.1.0"
edition = "2021"
publish = false

[dependencies]
anyhow = "1"
btleplug = "0.11"
chrono = "0.4"
clap = { version = "4", features = ["derive"] }
crossterm = { version = "0.29", features = ["event-stream"] }
evdev = "0.13"
futures = "0.3"
log = "0.4"
opus = "0.3"
pipewire = "0.9"
ratatui = "0.30"
serde = { version = "1", features = ["derive"] }
tokio = { version = "1", features = ["full"] }
toml = "0.9"
uuid = "1"
zbus = { version = "5", features = ["tokio"] }
zvariant = "5"
