[package]
name = "glim"
version = "0.1.0"
edition = "2021"
publish = false

[dependencies]
itertools = "0.13"
chrono = "0.4"
compact_str = "0.8"
serde = { version = "1", features = ["derive"] }
serde_json = "1"
thiserror = "2"
ratatui = "0.29"
crossterm = "0.28"
tui-input = "0.11"
tachyonfx = "0.11"
tokio = { version = "1", features = ["full"] }
reqwest = { version = "0.12", default-features = false, features = ["json", "rustls-tls"] }
clap = { version = "4", features = ["derive"] }
confy = "0.6"
directories = "5"
arboard = "3"
open = "5"
colorsys = "0.6"
derive_builder = "0.20"
unicode-width = "0.2"
once_cell = "1"
color-eyre = "0.6"
tracing = "0.1"
tracing-appender = "0.2"
tracing-subscriber = { version = "0.3", features = ["env-filter", "json"] }
