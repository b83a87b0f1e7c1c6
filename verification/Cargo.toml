[package]
name = "catalog_store"
version = "0.1.0"
edition = "2021"
publish = false

[dependencies]
rusqlite = { version = "*", features = ["bundled"] }
uuid = { version = "*", features = ["v4"] }
anyhow = "*"
tokio = { version = "*", features = ["process", "rt-multi-thread", "time", "macros", "sync"] }
tracing = "*"
itertools = "*"
scopeguard = "*"
async-trait = "*"

[dev-dependencies]
serde_json = "*"
