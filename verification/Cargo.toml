[package]
name = "syncbox"
version = "0.1.0"
edition = "2021"
publish = false

[dependencies]
regex = "1"
shell-escape = "0.1"
blake3 = { version = "1", features = ["pure"] }
clap = { version = "4", features = ["derive"] }
serde = { version = "1", features = ["derive"] }
toml = "0.8"
anyhow = "1"
thiserror = "1"
tokio = { version = "1", features = ["rt-multi-thread", "macros", "fs", "process", "sync", "time", "io-util"] }
tracing = "0.1"
tracing-subscriber = { version = "0.3", features = ["env-filter", "fmt"] }
notify = "6"
indicatif = "0.17"
chrono = "0.4"

[dev-dependencies]
num-format = "0.4"
tempfile = "3"
