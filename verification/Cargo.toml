[package]
name = "music_bot"
version = "0.1.0"
edition = "2021"
publish = false
rust-version = "1.95"

[dependencies]
serde_json = "=1.0.154"
tokio = { version = "=1.54.1", features = ["rt-multi-thread", "process", "sync", "macros"] }
rodio = "=0.20.1"
teloxide = { version = "=0.13.0", default-features = false, features = ["macros", "rustls", "ctrlc_handler"] }
takecell = "<0.1.2"
dptree = "=0.3.0"
log = "=0.4.35"
pretty_env_logger = "=0.5.0"
