[package]
name = "keyhouse_sync"
version = "0.1.0"
edition = "2021"
publish = false

[dependencies]
base64 = "*"
serde = { version = "*", features = ["derive"] }
serde_json = "*"
log = "*"
anyhow = "*"
reqwest = { version = "*", default-features = false, features = ["blocking", "json"] }
