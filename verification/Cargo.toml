[package]
name = "earthpulse"
version = "0.1.0"
edition = "2021"
publish = false

[dependencies]
chrono = "0.4"
log = "0.4"
quick-xml = "0.36"
reqwest = { version = "0.12", features = ["json"] }
rusqlite = { version = "0.32", features = ["bundled"] }
serde = { version = "1", features = ["derive"] }
serde_json = "1"
sgp4 = "2"
tokio = { version = "1", features = ["time", "macros"] }
