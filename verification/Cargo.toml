[package]
name = "quoridor"
version = "0.1.0"
edition = "2021"
publish = false

[dependencies]
fxhash = "0.2"
serde = { version = "1", features = ["derive"] }
serde_json = "1"
clap = { version = "4", features = ["derive"] }
crossterm = "*"
parse-display = "*"
mcts = "*"
rubot = "*"
