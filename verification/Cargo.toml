[package]
name = "geosync"
version = "0.1.0"
edition = "2021"
publish = false

[dependencies]
serde_json = "1"
rusqlite = { version = "0.31", features = ["bundled"] }
reqwest = { version = "0.11", default-features = false }
tokio = { version = "1", features = ["rt-multi-thread", "macros", "time", "sync"] }
dotenv = "0.15"
