[package]
name = "shard_cache"
version = "0.1.0"
edition = "2021"
publish = false

[dependencies]
fnv = "1.0"
tracing = "0.1"
tracing-subscriber = "0.3"
