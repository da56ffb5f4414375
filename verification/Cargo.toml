[package]
name = "hiq_engine"
version = "0.1.0"
edition = "2021"
publish = false

[dependencies]
anyhow = "1"
argh = "0.1"
async-trait = "0.1"
chrono = "0.4"
fern = "0.6"
libloading = "0.8"
log = "0.4"
mongodb = "2"
serde = { version = "1", features = ["derive"] }
serde_json = "1"
tokio = { version = "1", features = ["full"] }
