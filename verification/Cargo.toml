[package]
name = "aletheia"
version = "0.1.0"
edition = "2021"
publish = false

[dependencies]
glob = "0.3"
log = "0.4"
serde = { version = "1", features = ["derive"] }
serde_json = "1"
chrono = "0.4"
rusqlite = { version = "*", features = ["bundled"] }
steamlocate = "2"
thiserror = "2"
