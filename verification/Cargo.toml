[package]
name = "snap_explorer"
version = "0.1.0"
edition = "2021"
publish = false

[dependencies]
chrono = "0.4"
serde_json = "1"
serde = { version = "1", features = ["derive"] }
uuid = { version = "1", features = ["v4"] }
regex = "1"
log = "0.4"
rusqlite = { version = "*", features = ["bundled"] }
r2d2 = "0.8"
r2d2_sqlite = "*"
zip = "*"
kuchikiki = "*"
rayon = "1"
dirs = "*"
sysinfo = "*"
thiserror = "*"
reqwest = { version = "*", features = ["stream"] }
tokio = { version = "1", features = ["fs", "io-util", "rt"] }
futures-util = "0.3"

[dev-dependencies]
tempfile = "3"
