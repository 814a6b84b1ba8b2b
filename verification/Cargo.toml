[package]
name = "ndjson_ingest"
version = "0.1.0"
edition = "2021"
publish = false

[dependencies]
anyhow = "1"
async-compression = { version = "*", features = ["tokio", "zstd"] }
lambda_runtime = "*"
rusoto_core = "0.48"
rusoto_s3 = "0.48"
serde = { version = "1", features = ["derive"] }
serde_json = "1"
tokio = { version = "1", features = ["macros", "rt-multi-thread", "io-util"] }
tracing = "0.1"
tracing-subscriber = "0.3"
