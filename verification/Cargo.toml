[package]
name = "rini"
version = "0.1.0"
edition = "2021"
publish = false

[dependencies]
anyhow = "1"
dirs = "*"
libc = "0.2"
parking_lot = "*"
rustc-hash = "*"
serde = { version = "1", features = ["derive"] }
serde_json = "1"
tokio = { version = "1", features = ["sync", "rt", "macros", "time"] }
toml = "*"
tracing = "0.1"
