[package]
name = "jottrace"
version = "0.1.0"
edition = "2021"
publish = false

[dependencies]
zstd = "=0.14.3"
rusqlite = { version = "=0.41.1", features = ["bundled"] }
serde = { version = "=1.0.229", features = ["derive"] }
serde_json = { version = "=1.0.154", features = ["raw_value"] }
libc = "=0.2.191"
