[package]
name = "autogit"
version = "0.1.0"
edition = "2021"
publish = false

[dependencies]
serde_json = "1"
serde_yaml = "0.9"
notify-debouncer-full = "*"
walkdir = "2"
