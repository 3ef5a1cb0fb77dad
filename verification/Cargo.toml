[package]
name = "mg_calr"
version = "0.1.0"
edition = "2021"
publish = false

[dependencies]
chrono = { version = "=0.4.45", default-features = false, features = ["std", "clock", "serde"] }
chrono-tz = "=0.10.4"
uuid = { version = "=1.29.0", features = ["v7", "serde"] }
sha2 = "=0.10.9"
serde = { version = "=1.0.229", features = ["derive"] }
serde_json = "=1.0.154"
toml = "=0.8.23"
thiserror = "=2.0.21"
clap = { version = "=4.6.7", features = ["derive"] }
rusqlite = { version = "=0.32.1", features = ["bundled"] }
fs2 = "=0.4.3"
rustix = { version = "=0.38.44", features = ["fs"] }
