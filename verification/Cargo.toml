[package]
name = "data_ingestion"
version = "0.1.0"
edition = "2021"
publish = false

[dependencies]
apache-avro = "=0.22.0"
arrow = { version = "=60.0.0", default-features = false }
aws-config = { version = "=1.12.0", default-features = false }
aws-sdk-s3 = { version = "=1.152.0", default-features = false }
aws-sdk-sqs = { version = "=1.114.0", default-features = false }
bytes = "=1.12.1"
calamine = "=0.36.1"
csv = "=1.4.0"
mongodb = { version = "=3.9.1", default-features = false, features = ["compat-3-0-0", "rustls-tls"] }
parquet = { version = "=60.0.0", features = ["arrow"] }
quick-xml = "=0.42.0"
regex = "=1.13.1"
serde_json = "=1.0.151"
tokio = { version = "=1.53.2", features = ["macros", "rt-multi-thread"] }

[dev-dependencies]
zip = "=8.6.0"
