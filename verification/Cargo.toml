[package]
name = "omasend"
version = "0.1.0"
edition = "2021"
publish = false

[dependencies]
anyhow = "=1.0.104"
url = "=2.5.8"
semver = "=1.0.28"
uuid = { version = "=1.29.0", features = ["v4"] }
gethostname = "=1.1.0"
dirs = "=7.0.0"
tempfile = "=3.27.0"
mime_guess = "=2.0.5"
serde = { version = "=1.0.229", features = ["derive"] }
serde_json = "=1.0.154"
tokio = { version = "=1.54.1", features = ["process", "time", "io-util", "rt-multi-thread", "macros", "fs"] }
tracing = "=0.1.44"
tracing-subscriber = { version = "=0.3.23", features = ["env-filter"] }
if-addrs = "=0.15.0"
cap-std = "=4.0.3"
self_update = { version = "=1.3.3", features = ["checksums"] }
