[package]
name = "iopac"
version = "0.1.0"
edition = "2021"
publish = false

[dependencies]
md5 = "*"
encoding = "*"
scraper = "*"
table-extract = "*"
chrono = "*"
icalendar = "*"
anyhow = "*"
log = "*"
env_logger = "*"
futures = "*"
serde = { version = "*", features = ["derive"] }
serde_yaml = "*"
clap = { version = "*", features = ["derive", "env"] }
axum = "*"
tokio = { version = "*", features = ["full"] }
reqwest = { version = "*", default-features = false }
