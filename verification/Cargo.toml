[package]
name = "cake-core"
version = "0.1.0"
edition = "2021"
publish = false

[dependencies]
anyhow = "=1.0.104"
async-trait = "=0.1.92"
candle-core = "=0.9.2"
candle-nn = "=0.9.2"
clap = { version = "=4.6.7", features = ["derive"] }
env_logger = "=0.11.11"
half = "=2.7.1"
human_bytes = "=0.4.3"
log = "=0.4.34"
memory-stats = "=1.2.0"
serde = { version = "=1.0.229", features = ["derive"] }
serde_json = "=1.0.154"
tokio = { version = "=1.54.1", features = ["net", "io-util", "rt-multi-thread", "macros", "time"] }
