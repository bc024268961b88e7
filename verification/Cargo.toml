[package]
name = "nostr_tui"
version = "0.1.0"
edition = "2021"
publish = false

[dependencies]
hex = "*"
nostr-sdk = "*"
clap = "*"
crossterm = "*"
ratatui = "*"
tokio = { version = "*", features = ["rt-multi-thread", "macros", "time", "sync"] }
serde = { version = "*", features = ["derive"] }
serde_json = "*"
dirs = "*"
rpassword = "*"
chrono = "*"
unicode-width = "*"
