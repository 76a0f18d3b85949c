[package]
name = "unfudged"
version = "0.1.0"
edition = "2021"
publish = false

[dependencies]
chrono = "*"
similar = "*"
globset = "*"
serde = { version = "*", features = ["derive"] }
serde_json = "*"
dirs = "*"
fs2 = "*"
rusqlite = { version = "*", features = ["bundled"] }
signal-hook = "*"
thiserror = "*"
