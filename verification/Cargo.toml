[package]
name = "snippet_engine"
version = "0.1.0"
edition = "2021"
publish = false

[dependencies]
chrono = "0.4"
uuid = { version = "1", features = ["v4"] }
serde_json = "1"
arboard = "3"
enigo = "0.2"
rdev = "0.5"
rusqlite = { version = "0.31", features = ["bundled"] }
