[package]
name = "synapse"
version = "0.1.0"
edition = "2021"
publish = false

[dependencies]
arrow-flight = { version = "54", features = ["flight-sql-experimental"] }
datafusion = { version = "45", default-features = false }
futures = "0.3"
once_cell = "1"
prost = "0.13"
serde = { version = "1", features = ["derive"] }
serde_json = "1"
tokio = { version = "1", features = ["sync", "rt-multi-thread", "macros"] }
tonic = "0.12"
tracing = "0.1"
