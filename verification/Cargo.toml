[package]
name = "dial9"
version = "0.1.0"
edition = "2021"
publish = false

[dependencies]
anyhow = "1"
arbitrary = { version = "=1.5.0", features = ["derive"] }
aws-config = { version = "1", features = ["behavior-version-latest"] }
aws-sdk-s3 = { version = "1", features = ["behavior-version-latest"] }
aws-sdk-s3-transfer-manager = "0.1"
axum = "0.8"
bon = "3"
clap = { version = "4", features = ["derive"] }
flate2 = "=1.1.10"
libc = "0.2"
metrique = "=0.1.33"
metrique-writer = "=0.1.29"
tokio = { version = "1", features = ["rt", "rt-multi-thread", "macros", "net", "signal", "sync", "time", "fs"] }
tokio-util = "0.7"
tracing = "0.1"
tracing-subscriber = { version = "0.3", features = ["env-filter"] }
