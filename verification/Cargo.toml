[package]
name = "stash"
version = "0.1.0"
edition = "2021"
publish = false

[dependencies]
anyhow = "*"
bzip2 = "*"
chrono = "*"
clap = { version = "*", features = ["derive"] }
dircpy = "*"
dirs = "*"
filetime = "*"
flate2 = "*"
hex = "*"
serde = { version = "*", features = ["derive"] }
serde_json = "*"
sha2 = "*"
tar = "*"
uuid = { version = "*", features = ["v4"] }
