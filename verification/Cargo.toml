[package]
name = "fdnix_search"
version = "0.1.0"
edition = "2021"
publish = false

[dependencies]
serde = { version = "=1.0.229", features = ["derive"] }
serde_json = "=1.0.154"
zstd = "=0.14.3"
rusqlite = { version = "=0.41.0", features = ["bundled"] }
thiserror = "=2.0.21"
tracing = "=0.1.44"
tracing-subscriber = "=0.3.23"
tokio = { version = "=1.54.1", features = ["macros", "rt-multi-thread", "time"] }
lambda_runtime = "=1.5.0"
aws-config = "=1.13.0"
aws-sdk-bedrockruntime = "=1.151.0"
duckdb = "*"
futures-util = "*"
