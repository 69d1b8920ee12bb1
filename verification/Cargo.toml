[package]
name = "card_draw"
version = "0.1.0"
edition = "2021"
publish = false

[dependencies]
ansi_term = "*"
clap = { version = "*", features = ["derive"] }
scryfall = "*"
tokio = { version = "*", features = ["macros", "rt-multi-thread"] }
