[package]
name = "osef_me"
version = "0.1.0"
edition = "2021"
publish = false

[dependencies]
md5 = "=0.8.1"
base64 = "=0.22.1"
serde = { version = "=1.0.229", features = ["derive"] }
toml = "=1.1.7"
dirs = "=7.0.0"
tokio = { version = "=1.53.2", features = ["rt-multi-thread", "macros", "time", "sync"] }
futures-util = "=0.3.34"
reqwest = { version = "=0.12.28", default-features = false, features = ["rustls-tls", "stream"] }
rosu-map = "=0.2.1"
rosu-pp = "=4.0.1"
rosu-mem = "=2.0.0"
rosu-memory-lib = "=1.3.1"
minacalc-rs = "=515.2.0"
ssrrr = "=0.2.1"
