[package]
name = "hyprhook"
version = "0.1.0"
edition = "2021"
publish = false

[dependencies]
regex = "1"
tokio = { version = "1", features = ["sync", "process", "rt-multi-thread", "macros"] }
serde = { version = "1", features = ["derive"] }
toml = "*"
clap = { version = "4", features = ["derive"] }
hyprland = "*"
tracing = "*"
