[package]
name = "crabwalk"
version = "0.1.0"
edition = "2021"
publish = false

[dependencies]
anyhow = "=1.0.104"
base64 = "=0.22.1"
clap = { version = "=4.6.7", features = ["derive"] }
duckdb = { version = "=1.20000.0", default-features = false }
flate2 = "=1.1.10"
libc = "=0.2.191"
petgraph = "=0.6.5"
regex = "=1.13.1"
serde = { version = "=1.0.229", features = ["derive"] }
serde_json = "=1.0.154"
serde_yaml = "=0.9.34"
sqlparser = { version = "=0.49.0", features = ["serde"] }
tracing = "=0.1.44"
tracing-subscriber = { version = "=0.3.23", features = ["env-filter"] }
walkdir = "=2.5.0"
