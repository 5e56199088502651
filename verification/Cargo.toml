[package]
name = "async-graphql-telemetry-extension"
version = "0.1.0"
edition = "2021"
publish = false

[dependencies]
async-graphql = { version = "=2.7.4", default-features = false }
async-trait = "=0.1.92"
chrono = "=0.4.45"
futures-util = "=0.3.34"
lazy_static = "=1.5.1"
opentelemetry = { version = "=0.16.0", features = ["metrics"] }
serde = { version = "=1.0.229", features = ["derive"] }
tokio = { version = "=1.54.1", features = ["time"] }
tracing = "=0.1.44"
tracing-futures = { version = "=0.2.5", features = ["futures-03"] }
