[package]
name = "typemore"
version = "0.1.0"
edition = "2021"
publish = false

[dependencies]
pinyin = "0.10"
dirs = "5"
regex = "1"
uuid = { version = "1", features = ["v4"] }
serde = { version = "1", features = ["derive"] }
serde_json = "1"
anyhow = "1"
reqwest = { version = "0.12", default-features = false, features = ["json", "rustls-tls"] }
tokio = { version = "1", features = ["rt-multi-thread", "macros", "process", "sync", "time"] }
zip = { version = "2", default-features = false, features = ["deflate"] }
hound = "3"
once_cell = "1"
parking_lot = "0.12"
