[package]
name = "chess_bot"
version = "0.1.0"
edition = "2021"
publish = false

[dependencies]
anyhow = "1"
pgn-reader = "*"
rand = "0.8"
serde = { version = "1", features = ["derive"] }
serde_json = "1"
shakmaty = "*"
