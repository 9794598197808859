[package]
name = "sftp_backend"
version = "0.1.0"
edition = "2021"
publish = false

[dependencies]
base64 = "=0.22.1"
chrono = "=0.4.45"
russh = { version = "=0.60.3", default-features = false, features = ["ring"] }
russh-sftp = "=2.4.0"
serde = { version = "=1.0.229", features = ["derive"] }
serde_json = "=1.0.154"
tokio = { version = "=1.54.1", features = ["rt", "rt-multi-thread", "time", "io-util", "sync", "net", "macros"] }
tracing = "=0.1.44"
async-trait = "=0.1.92"
