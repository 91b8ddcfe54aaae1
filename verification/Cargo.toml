[package]
name = "hypr_rectangle"
version = "0.1.0"
edition = "2021"
publish = false

[dependencies]
anyhow = "1"
clap = { version = "4", features = ["derive"] }
hyprland = "=0.4.0-beta.3"
serde = { version = "1", features = ["derive"] }
serde_json = "1"
