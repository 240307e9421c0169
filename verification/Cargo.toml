[package]
name = "redis_proxy"
version = "0.1.0"
edition = "2021"
publish = false

[dependencies]
jsonschema = { version = "=0.17.1", default-features = false }
regex = "=1.13.1"
serde = { version = "=1.0.229", features = ["derive"] }
serde_json = "=1.0.154"
redis = "=1.8.0"
sysinfo = "=0.39.6"
