[package]
name = "cache_fr"
version = "0.1.0"
edition = "2021"
publish = false

[dependencies]
dashmap = "5"
tonic = "0.11"
prost = "0.12"
tokio = { version = "1", features = ["macros", "rt-multi-thread", "sync", "time"] }
bb8 = "0.8"
