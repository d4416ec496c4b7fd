[package]
name = "snxcore"
version = "0.1.0"
edition = "2021"
publish = false

[dependencies]
bytes = "=1.12.1"
uuid = "=1.29.0"
tokio-util = { version = "=0.7.20", features = ["codec"] }
anyhow = "=1.0.104"
tokio = { version = "=1.54.1", features = ["net", "time", "rt", "sync"] }
libc = "=0.2.191"
