[package]
name = "frame_host"
version = "0.1.0"
edition = "2021"
publish = false

[dependencies]
serde_json = "=1.0.154"
slog = "=2.8.2"
slog-term = "=2.9.2"
slog-async = "=2.8.0"
crossbeam-channel = "=0.5.17"
ctrlc = "=3.5.2"
actix = "0.10"
actix-web = "3"
actix-files = "0.5"
actix-web-actors = "3"
actix-slog = "=0.2.1"
