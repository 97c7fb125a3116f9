[package]
name = "slack_splitter"
version = "0.1.0"
edition = "2021"
publish = false

[dependencies]
anyhow = "1"
async_zip = { version = "*", features = ["tokio", "deflate"] }
clap = { version = "4", features = ["derive"] }
env_logger = "*"
futures = "0.3"
futures-util = "0.3"
indicatif = "*"
log = "0.4"
reqwest = { version = "*", default-features = false }
reqwest-middleware = "*"
reqwest-retry = "*"
serde = { version = "1", features = ["derive"] }
serde_json = "1"
tokio = { version = "1", features = ["full"] }
tokio-util = { version = "*", features = ["compat", "io"] }
trauma = "*"
url = "2"
