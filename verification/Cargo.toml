[package]
name = "chess_tui"
version = "0.1.0"
edition = "2021"
publish = false

[dependencies]
shakmaty = "=0.27.3"
pgn-reader = "=0.26.0"
reqwest = { version = "=0.12.28", default-features = false, features = ["blocking", "json", "rustls-tls"] }
serde = { version = "=1.0.229", features = ["derive"] }
clap = { version = "=4.5.61", features = ["derive"] }
crossterm = "=0.28.1"
ratatui = "=0.29.0"
anyhow = "=1.0.104"
