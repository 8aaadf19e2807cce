[package]
name = "bitvanes-cli"
version = "0.1.0"
edition = "2021"
publish = false

[dependencies]
blake3 = "*"
serde = { version = "1", features = ["derive"] }
serde_json = "1"
toml = "*"
glob = "*"
walkdir = "*"
rayon = "*"
indicatif = "*"
clap = { version = "4", features = ["derive"] }
crossterm = "0.28"
ratatui = "0.29"
