[package]
name = "bridge"
version = "0.1.0"
edition = "2021"
publish = false

[dependencies]
regex-syntax = "*"
fuzzy-matcher = "0.3"
sorted-vec = "*"
tokio = { version = "1", features = ["full"] }
twilight-http = "0.15"
twilight-gateway = "0.15"
twilight-model = "0.15"
twilight-util = { version = "0.15", features = ["builder"] }
twilight-cache-inmemory = "0.15"
dotenvy = "0.15"
tracing = "0.1"
tracing-subscriber = { version = "0.3", features = ["env-filter"] }
