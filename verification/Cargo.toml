[package]
name = "dqlite-utils"
version = "0.1.0"
edition = "2021"
publish = false

[dependencies]
shell-words = "1"
time = { version = "0.3", features = ["parsing", "formatting"] }
regex = "1"
sqlparser = "*"
rusqlite = { version = "*", features = ["bundled", "hooks"] }
clap = { version = "4", features = ["derive"] }
owo-colors = { version = "4", features = ["supports-colors"] }
anyhow = "1"
rustyline = "*"
home = "*"
