[package]
name = "sparrow_core"
version = "0.1.0"
edition = "2021"
publish = false

[dependencies]
aerospike = "=2.2.0"
futures = "=0.3.34"
serde = { version = "=1.0.229", features = ["derive"] }
serde_json = "=1.0.151"
tokio = { version = "=1.53.2", features = ["macros", "rt-multi-thread"] }
