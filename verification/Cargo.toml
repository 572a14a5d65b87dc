[package]
name = "bilibili_webhook"
version = "0.1.0"
edition = "2021"
publish = false

[dependencies]
bili_core = { version = "=0.1.2", features = ["fav"] }
config = { version = "*", default-features = false, features = ["toml"] }
log = "=0.4.35"
log4rs = "=1.4.0"
quick-xml = { version = "=0.42.0", features = ["serialize"] }
reqwest = { version = "=0.12.28", features = ["blocking"] }
rusqlite = "=0.41.1"
serde = { version = "=1.0.229", features = ["derive"] }
serde_json = "=1.0.154"
serde-xml-rs = "=0.8.2"
tokio = { version = "=1.54.1", features = ["rt-multi-thread", "time"] }
toml = "=1.2.1"
