[package]
name = "fund_core"
version = "0.1.0"
edition = "2021"
publish = false

[dependencies]
anyhow = "1"
clap = { version = "4", features = ["derive"] }
comfy-table = "7"
minreq = { version = "2", features = ["https-native"] }
owo-colors = "4"
rusqlite = "*"
serde = { version = "1", features = ["derive"] }
serde_json = "1"
unicode-width = "*"
urlencoding = "2"
