[package]
name = "binman"
version = "0.1.0"
edition = "2021"
publish = false

[dependencies]
anyhow = "1"
clap = { version = "4", features = ["derive"] }
dirs = "*"
http = "*"
reqwest = { version = "*", default-features = false }
rood = "*"
semver = "1"
serde = { version = "1", features = ["derive"] }
serde_json = "1"
sha2 = "0.10"
shellexpand = "*"
tempfile = "*"
tokio = { version = "1", features = ["rt-multi-thread", "macros"] }
tracing = "*"
tracing-subscriber = "*"
walkdir = "*"
