[package]
name = "vet_storage"
version = "0.1.0"
edition = "2021"
publish = false

[dependencies]
cargo_metadata = "*"
chrono = { version = "0.4", default-features = false, features = ["std", "serde"] }
crates-index = { version = "*", default-features = false }
filetime = "0.2"
flate2 = "1"
futures-util = "0.3"
miette = "*"
reqwest = { version = "*", default-features = false }
serde = { version = "1", features = ["derive"] }
serde_json = "1"
similar = "2"
tar = "0.4"
tokio = { version = "1", features = ["rt", "fs", "process", "sync"] }
toml = "*"
tracing = "0.1"
