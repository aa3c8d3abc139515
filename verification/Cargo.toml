[package]
name = "mock_agones"
version = "0.1.0"
edition = "2021"
publish = false

[dependencies]
flume = "0.11"
futures-core = "0.3"
parking_lot = "0.12"
prost = "0.13"
tokio = { version = "1", features = ["macros", "net", "rt-multi-thread", "time"] }
tonic = "0.12"
