[package]
name = "agent_rs"
version = "0.1.0"
edition = "2021"
publish = false

[dependencies]
rig-core = "=0.32.0"
tokio = { version = "=1.54.1", features = ["full"] }
anyhow = "=1.0.104"
async-trait = "=0.1.92"
futures = "=0.3.34"
tracing = "=0.1.44"
serde = { version = "=1.0.229", features = ["derive"] }
serde_json = "=1.0.154"
tiktoken-rs = "=0.12.1"
url = "=2.5.8"
pdf-extract = "=0.12.1"
tempfile = "=3.27.0"
glob = "=0.3.4"
fastembed = { version = "=7.5.0", default-features = false }
ort = { version = "=2.0.0-rc.15", default-features = false }
