[package]
name = "potato_stream"
version = "0.1.0"
edition = "2021"
publish = false

[dependencies]
anyhow = "=1.0.104"
clap = { version = "=4.6.7", features = ["derive"] }
dittolive-ditto = { version = "=4.11.7", features = ["experimental-bus"] }
opencv = "=0.101.1"
pretty_assertions = "=1.4.1"
safer-ffi = "=0.1.13"
serde = { version = "=1.0.229", features = ["derive"] }
serde_cbor = "=0.11.2"
serde_json = "=1.0.154"
str0m = "=0.25.0"
thiserror = "=2.0.21"
tokio = { version = "=1.54.1", features = ["full"] }
tracing = "=0.1.44"
tracing-subscriber = { version = "=0.3.23", features = ["env-filter", "fmt"] }
