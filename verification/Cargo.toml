[package]
name = "chess_logic"
version = "0.1.0"
edition = "2021"

[dependencies]
ansi_term = "*"
confy = "*"
serde = { version = "*", features = ["derive"] }
