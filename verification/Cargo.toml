[package]
name = "univ4_indexer"
version = "0.1.0"
edition = "2021"
publish = false

[dependencies]
alloy = { version = "1", default-features = false, features = ["std", "sol-types"] }
chrono = "0.4"
primitive-types = "*"
clickhouse = "*"
eyre = "0.6"
futures = "0.3"
tokio = { version = "1", features = ["rt"] }
tracing = "0.1"
