[package]
name = "bench_transaction"
version = "0.1.0"
edition = "2021"
publish = false

[dependencies]
anyhow = "1"
miden-processor = { version = "=0.22.4", default-features = false, features = ["std"] }
miden-protocol = { version = "=0.14.5", default-features = false, features = ["std"] }
miden-standards = { version = "=0.14.5", default-features = false, features = ["std"] }
miden-testing = { version = "=0.14.6", default-features = false }
miden-tx = { version = "=0.14.5", default-features = false, features = ["std"] }
serde_json = "=1.0.154"
tokio = { version = "1", features = ["macros", "rt"] }
