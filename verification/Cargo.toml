[package]
name = "slatedb_wal_bench"
version = "0.1.0"
edition = "2021"
publish = false

[dependencies]
anyhow = "1"
aws-msk-iam-sasl-signer = "*"
aws-types = "1"
bytes = "1"
log = "0.4"
object_store = { version = "*", features = ["aws"] }
rand = "0.9"
rdkafka = "*"
thiserror = "2"
tokio = { version = "1", features = ["full"] }
ulid = "1"
uuid = "1"
