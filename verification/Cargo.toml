[package]
name = "dynamic_agent"
version = "0.1.0"
edition = "2021"
publish = false

[dependencies]
async-trait = "*"
chrono = "*"
clap = { version = "*", features = ["derive"] }
env_logger = "*"
futures = "*"
governor = "*"
hmac = "*"
log = "*"
reqwest = { version = "*", default-features = false, features = ["json"] }
serde = { version = "*", features = ["derive"] }
serde_json = "*"
sha2 = "*"
strsim = "*"
tokio = { version = "*", features = ["full"] }
tokio-tungstenite = "*"
url = "*"
uuid = { version = "*", features = ["v4"] }
