[package]
name = "baibo"
version = "0.1.0"
edition = "2021"
publish = false

[dependencies]
uuid = { version = "1", features = ["v4"] }
serde = { version = "1", features = ["derive"] }
serde_json = "1"
rusqlite = { version = "*", features = ["bundled"] }
rusqlite_migration = "*"
git2 = { version = "*", default-features = false }
portable-pty = "*"
libc = "0.2"
log = "0.4"
thiserror = "*"
