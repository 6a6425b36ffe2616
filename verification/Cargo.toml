[package]
name = "provider_runtime"
version = "0.1.0"
edition = "2021"
publish = false

[dependencies]
anyhow = "1"
bigdecimal = "*"
chrono = "*"
futures = "0.3"
humantime = "*"
log = "0.4"
num = "*"
serde_json = "1"
structopt = "0.3"
thiserror = "1"
tokio = { version = "1", features = ["macros", "rt", "sync", "time"] }
url = "*"
