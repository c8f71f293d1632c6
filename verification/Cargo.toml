[package]
name = "skills_dba"
version = "0.1.0"
edition = "2021"
publish = false

[dependencies]
async-trait = "*"
chrono = { version = "*", features = ["serde"] }
reqwest = { version = "*", features = ["json"] }
rusqlite = { version = "*", features = ["bundled"] }
serde = { version = "*", features = ["derive"] }
serde_json = "*"
tokio = { version = "*", features = ["sync", "rt", "macros"] }
uuid = { version = "*", features = ["v4"] }
